//! What the media downloader reports, turned into the library's records,
//! and the URLs and identifiers derived from what a user gives.
use vstd::prelude::*;
use crate::index::{
    clamp_count, clamp_i32, clone_opt, opt_str, or_else, speaker_count, speakers, word_count,
    word_count_spec, TranscriptMetadata,
};
use crate::text::{
    before_seq, chars_of, contains_chars, contains_seq, ends_with_chars, ends_with_seq,
    find_first, first_occurrence, lower_of, push_char, push_str, split_before, starts_with_chars,
    starts_with_seq, str_contains, string_of, string_of_range, to_lower, vec_range,
};
use crate::transcriber::{digits, push_digits, TranscriptData};

verus! {

/// One entry of a channel listing or a search.
#[derive(Debug, Clone)]
pub struct PlaylistEntry {
    pub id: String,
    pub title: String,
    pub url: String,
    pub channel: Option<String>,
    pub channel_id: Option<String>,
    pub duration: Option<i64>,
    pub view_count: Option<i64>,
    pub upload_date: Option<String>,
}

/// One entry as the downloader lists it; `duration` is already whole
/// seconds.
#[derive(Debug, Clone)]
pub struct RawPlaylistEntry {
    pub id: Option<String>,
    pub title: Option<String>,
    pub url: Option<String>,
    pub channel: Option<String>,
    pub channel_id: Option<String>,
    pub uploader: Option<String>,
    pub uploader_id: Option<String>,
    pub duration: Option<i64>,
    pub view_count: Option<i64>,
    pub upload_date: Option<String>,
    pub playlist_uploader: Option<String>,
    pub playlist_channel: Option<String>,
    pub playlist_channel_id: Option<String>,
}

/// The metadata of one video.
#[derive(Debug, Clone)]
pub struct VideoMetadata {
    pub id: String,
    pub title: String,
    pub channel: String,
    pub uploader: Option<String>,
    pub uploader_id: Option<String>,
    pub duration: Option<i64>,
    pub upload_date: Option<String>,
    pub description: Option<String>,
    pub view_count: Option<i64>,
    pub like_count: Option<i64>,
    pub thumbnail: Option<String>,
    pub url: String,
    pub webpage_url: Option<String>,
    pub extractor: Option<String>,
}

/// The metadata of one video as the downloader reports it.
#[derive(Debug, Clone)]
pub struct RawVideoInfo {
    pub id: Option<String>,
    pub title: Option<String>,
    pub channel: Option<String>,
    pub uploader: Option<String>,
    pub uploader_id: Option<String>,
    pub duration: Option<i64>,
    pub upload_date: Option<String>,
    pub description: Option<String>,
    pub view_count: Option<i64>,
    pub like_count: Option<i64>,
    pub thumbnail: Option<String>,
    pub webpage_url: Option<String>,
    pub extractor: Option<String>,
}

/// The first present value, in the order given.
pub open spec fn first_present(a: Option<String>, b: Option<String>) -> Option<Seq<char>> {
    match a {
        Some(s) => Some(s@),
        None => opt_str(b),
    }
}

fn first_of(a: Option<String>, b: Option<String>) -> (r: Option<String>)
    ensures
        opt_str(r) == first_present(a, b),
{
    match a {
        Some(s) => Some(s),
        None => b,
    }
}

impl RawPlaylistEntry {
    /// The entry, when it has an id: the title defaults to `Untitled`, the
    /// URL to the video's watch page, the channel is the first of channel,
    /// uploader, playlist channel and playlist uploader, and the channel id
    /// the first of channel id, uploader id and playlist channel id.
    pub fn into_playlist_entry(self) -> (r: Option<PlaylistEntry>)
        ensures
            self.id is None <==> r is None,
            r is Some ==> {
                let e = r->0;
                &&& e.id@ == self.id->0@
                &&& e.title@ == or_else(self.title, "Untitled"@)
                &&& e.url@ == or_else(self.url, "https://www.youtube.com/watch?v="@ + self.id->0@)
                &&& opt_str(e.channel) == match self.channel {
                    Some(c) => Some(c@),
                    None => match self.uploader {
                        Some(u) => Some(u@),
                        None => first_present(self.playlist_channel, self.playlist_uploader),
                    },
                }
                &&& opt_str(e.channel_id) == match self.channel_id {
                    Some(c) => Some(c@),
                    None => first_present(self.uploader_id, self.playlist_channel_id),
                }
                &&& e.duration == self.duration
                &&& e.view_count == self.view_count
                &&& opt_str(e.upload_date) == opt_str(self.upload_date)
            },
    {
        let id = match self.id {
            Some(id) => id,
            None => return None,
        };
        let title = match self.title {
            Some(t) => t,
            None => String::from_str("Untitled"),
        };
        let url = match self.url {
            Some(u) => u,
            None => {
                let mut u = String::from_str("https://www.youtube.com/watch?v=");
                push_str(&mut u, id.as_str());
                u
            },
        };
        let channel = first_of(
            self.channel,
            first_of(self.uploader, first_of(self.playlist_channel, self.playlist_uploader)),
        );
        let channel_id = first_of(
            self.channel_id,
            first_of(self.uploader_id, self.playlist_channel_id),
        );
        Some(
            PlaylistEntry {
                id,
                title,
                url,
                channel,
                channel_id,
                duration: self.duration,
                view_count: self.view_count,
                upload_date: self.upload_date,
            },
        )
    }
}

impl RawVideoInfo {
    /// The video's metadata for the URL it was fetched from: the id
    /// defaults to empty, the title to `Unknown Title`, and the channel is
    /// the channel, else the uploader, else `Unknown Channel`.
    pub fn into_metadata(self, url: &str) -> (r: VideoMetadata)
        ensures
            r.id@ == or_else(self.id, Seq::empty()),
            r.title@ == or_else(self.title, "Unknown Title"@),
            r.channel@ == match self.channel {
                Some(c) => c@,
                None => or_else(self.uploader, "Unknown Channel"@),
            },
            opt_str(r.uploader) == opt_str(self.uploader),
            opt_str(r.uploader_id) == opt_str(self.uploader_id),
            r.duration == self.duration,
            opt_str(r.upload_date) == opt_str(self.upload_date),
            opt_str(r.description) == opt_str(self.description),
            r.view_count == self.view_count,
            r.like_count == self.like_count,
            opt_str(r.thumbnail) == opt_str(self.thumbnail),
            r.url@ == url@,
            opt_str(r.webpage_url) == opt_str(self.webpage_url),
            opt_str(r.extractor) == opt_str(self.extractor),
    {
        proof {
            reveal_strlit("");
        }
        let id = match self.id {
            Some(s) => s,
            None => String::from_str(""),
        };
        let title = match self.title {
            Some(s) => s,
            None => String::from_str("Unknown Title"),
        };
        let channel = match self.channel {
            Some(c) => c,
            None => match &self.uploader {
                Some(u) => u.clone(),
                None => String::from_str("Unknown Channel"),
            },
        };
        VideoMetadata {
            id,
            title,
            channel,
            uploader: self.uploader,
            uploader_id: self.uploader_id,
            duration: self.duration,
            upload_date: self.upload_date,
            description: self.description,
            view_count: self.view_count,
            like_count: self.like_count,
            thumbnail: self.thumbnail,
            url: String::from_str(url),
            webpage_url: self.webpage_url,
            extractor: self.extractor,
        }
    }
}

/// `s` without any trailing `/`.
pub open spec fn trim_end_slashes(s: Seq<char>) -> Seq<char>
    decreases s.len(),
{
    if s.len() > 0 && s.last() == '/' {
        trim_end_slashes(s.drop_last())
    } else {
        s
    }
}

/// The videos tab of a channel given by URL, `@handle` or channel id.
pub open spec fn channel_url_spec(url: Seq<char>) -> Seq<char> {
    let u = trim_end_slashes(url);
    if ends_with_seq(u, "/videos"@) {
        u
    } else if contains_seq(u, "youtube.com/"@) {
        u + "/videos"@
    } else if starts_with_seq(u, "@"@) {
        "https://www.youtube.com/"@ + u + "/videos"@
    } else {
        "https://www.youtube.com/channel/"@ + u + "/videos"@
    }
}

/// Point a channel reference at its videos tab: a URL keeps its form, a
/// `@handle` or a channel id becomes a full URL.
pub fn normalize_channel_url(url: &str) -> (r: String)
    ensures
        r@ == channel_url_spec(url@),
{
    let v = chars_of(url);
    let mut end: usize = v.len();
    assert(v@.subrange(0, end as int) =~= v@);
    while end > 0 && v[end - 1] == '/'
        invariant
            end <= v.len(),
            trim_end_slashes(v@) == trim_end_slashes(v@.subrange(0, end as int)),
        decreases end,
    {
        assert(v@.subrange(0, end as int).drop_last() =~= v@.subrange(0, end - 1));
        end -= 1;
    }
    let u = vec_range(&v, 0, end);
    let us = string_of(&u);
    let videos = chars_of("/videos");
    if ends_with_chars(&u, &videos) {
        return us;
    }
    let host = chars_of("youtube.com/");
    if contains_chars(&u, &host) {
        let mut r = us;
        push_str(&mut r, "/videos");
        return r;
    }
    let at = chars_of("@");
    if starts_with_chars(&u, &at) {
        let mut r = String::from_str("https://www.youtube.com/");
        push_str(&mut r, us.as_str());
        push_str(&mut r, "/videos");
        return r;
    }
    let mut r = String::from_str("https://www.youtube.com/channel/");
    push_str(&mut r, us.as_str());
    push_str(&mut r, "/videos");
    r
}

/// The downloader's search reference for the first `limit` results of a
/// query: `ytsearch<limit>:<query>`.
pub fn search_url(query: &str, limit: u64) -> (r: String)
    ensures
        r@ == "ytsearch"@ + digits(limit as nat) + ":"@ + query@,
{
    let mut r = String::from_str("ytsearch");
    push_digits(&mut r, limit);
    push_str(&mut r, ":");
    push_str(&mut r, query);
    r
}

/// An eight-character `YYYYMMDD` date as `YYYY-MM-DD`; anything else as
/// it is.
pub open spec fn upload_date_spec(d: Seq<char>) -> Seq<char> {
    if d.len() == 8 {
        d.subrange(0, 4) + seq!['-'] + d.subrange(4, 6) + seq!['-'] + d.subrange(6, 8)
    } else {
        d
    }
}

/// Format a `YYYYMMDD` upload date as `YYYY-MM-DD`.
pub fn format_upload_date(date: &str) -> (r: String)
    ensures
        r@ == upload_date_spec(date@),
{
    let v = chars_of(date);
    if v.len() != 8 {
        return String::from_str(date);
    }
    let mut r = string_of_range(&v, 0, 4);
    push_char(&mut r, '-');
    let m = string_of_range(&v, 4, 6);
    push_str(&mut r, m.as_str());
    push_char(&mut r, '-');
    let d = string_of_range(&v, 6, 8);
    push_str(&mut r, d.as_str());
    r
}

/// The last segment of `s` after dropping trailing `/`: what follows the
/// last `/` before them.
pub open spec fn last_segment(s: Seq<char>) -> Seq<char>
    decreases s.len(),
{
    if s.len() == 0 || s.last() == '/' {
        Seq::empty()
    } else {
        last_segment(s.drop_last()).push(s.last())
    }
}

/// The text from `start` up to the first `stop` after it, or to the end.
pub open spec fn span_until(url: Seq<char>, start: int, stop: Seq<char>) -> Seq<char> {
    before_seq(url.skip(start), stop)
}

/// The video id in a URL, given the URL lowercased: for YouTube the `v=`
/// parameter, else the path after `youtu.be/`; for anything else, the last
/// non-empty path segment before any `?`.
pub open spec fn video_id_spec(url: Seq<char>, lowered: Seq<char>) -> Option<Seq<char>> {
    let youtube = contains_seq(lowered, "youtube.com"@) || contains_seq(lowered, "youtu.be"@);
    let fallback = last_segment(trim_end_slashes(before_seq(url, "?"@)));
    if youtube && first_occurrence(url, "v="@) is Some {
        Some(span_until(url, first_occurrence(url, "v="@)->0 + 2, "&"@))
    } else if youtube && contains_seq(lowered, "youtu.be/"@) && first_occurrence(
        url,
        "youtu.be/"@,
    ) is Some {
        Some(span_until(url, first_occurrence(url, "youtu.be/"@)->0 + 9, "?"@))
    } else if fallback.len() > 0 {
        Some(fallback)
    } else {
        None
    }
}

fn span_after(url: &Vec<char>, start: usize, stop: &str) -> (r: String)
    requires
        start <= url.len(),
    ensures
        r@ == span_until(url@, start as int, stop@),
{
    let rest = vec_range(url, start, url.len());
    assert(rest@ =~= url@.skip(start as int));
    let s = chars_of(stop);
    let part = split_before(&rest, &s);
    string_of(&part)
}

/// The video id in a URL, given the URL and its lowercase form.
pub fn video_id_from(url: &str, lowered: &str) -> (r: Option<String>)
    ensures
        opt_str(r) == video_id_spec(url@, lowered@),
{
    let u = chars_of(url);
    let youtube = str_contains(lowered, "youtube.com") || str_contains(lowered, "youtu.be");
    let fallback = last_path_segment(&u);
    if youtube {
        let v_eq = chars_of("v=");
        match find_first(&u, &v_eq) {
            Some(pos) => {
                proof {
                    reveal_strlit("v=");
                }
                let n: usize = u.len();
                assert(v_eq@.len() == 2);
                assert(pos + 2 <= n);
                let start: usize = pos + 2;
                return Some(span_after(&u, start, "&"));
            },
            None => {},
        }
        if str_contains(lowered, "youtu.be/") {
            let short = chars_of("youtu.be/");
            match find_first(&u, &short) {
                Some(pos) => {
                    proof {
                        reveal_strlit("youtu.be/");
                    }
                    let n: usize = u.len();
                    assert(short@.len() == 9);
                    assert(pos + 9 <= n);
                    let start: usize = pos + 9;
                    return Some(span_after(&u, start, "?"));
                },
                None => {},
            }
        }
    }
    fallback
}

/// The last non-empty path segment of a URL before any `?`.
fn last_path_segment(u: &Vec<char>) -> (r: Option<String>)
    ensures
        match r {
            Some(x) => x@ == last_segment(trim_end_slashes(before_seq(u@, "?"@))) && x@.len() > 0,
            None => last_segment(trim_end_slashes(before_seq(u@, "?"@))).len() == 0,
        },
{
    let q = chars_of("?");
    let path = split_before(&u, &q);
    let mut end: usize = path.len();
    assert(path@.subrange(0, end as int) =~= path@);
    while end > 0 && path[end - 1] == '/'
        invariant
            end <= path.len(),
            trim_end_slashes(path@) == trim_end_slashes(path@.subrange(0, end as int)),
        decreases end,
    {
        assert(path@.subrange(0, end as int).drop_last() =~= path@.subrange(0, end - 1));
        end -= 1;
    }
    let ghost t = path@.subrange(0, end as int);
    assert(trim_end_slashes(t) == t);
    let mut start: usize = end;
    assert(t.subrange(0, start as int) =~= t);
    assert(t.subrange(start as int, end as int) =~= Seq::<char>::empty());
    assert(last_segment(t) == last_segment(t.subrange(0, start as int)) + t.subrange(
        start as int,
        end as int,
    ));
    while start > 0 && path[start - 1] != '/'
        invariant
            start <= end <= path.len(),
            t == path@.subrange(0, end as int),
            last_segment(t) == last_segment(t.subrange(0, start as int)) + t.subrange(
                start as int,
                end as int,
            ),
        decreases start,
    {
        let ghost pre = t.subrange(0, start as int);
        assert(pre.drop_last() =~= t.subrange(0, start - 1));
        assert(t.subrange(start - 1, end as int) =~= seq![pre.last()] + t.subrange(
            start as int,
            end as int,
        ));
        assert(last_segment(pre) == last_segment(pre.drop_last()).push(pre.last()));
        assert(last_segment(pre.drop_last()).push(pre.last()) + t.subrange(start as int, end as int)
            =~= last_segment(pre.drop_last()) + t.subrange(start - 1, end as int));
        start -= 1;
    }
    assert(last_segment(t.subrange(0, start as int)) =~= Seq::<char>::empty());
    assert(last_segment(t) =~= t.subrange(start as int, end as int));
    if start == end {
        None
    } else {
        Some(string_of_range(&path, start, end))
    }
}

/// The video id in a URL.
pub fn extract_video_id(url: &str) -> (r: Option<String>)
    ensures
        opt_str(r) == video_id_spec(url@, lower_of(url@)),
{
    let lowered = to_lower(url);
    video_id_from(url, lowered.as_str())
}

/// The index row for a video just transcribed: the downloader's metadata,
/// the URL it came from, its platform and directory, and the transcript.
/// The uploader id serves as channel handle and channel id.
pub fn new_transcript_record(
    url: &str,
    platform: &str,
    path: &str,
    meta: &VideoMetadata,
    data: &TranscriptData,
) -> (r: TranscriptMetadata)
    ensures
        r.video_id@ == meta.id@,
        r.url@ == url@,
        r.title@ == meta.title@,
        r.channel@ == meta.channel@,
        opt_str(r.channel_handle) == opt_str(meta.uploader_id),
        opt_str(r.channel_id) == opt_str(meta.uploader_id),
        r.platform@ == platform@,
        r.duration == meta.duration,
        opt_str(r.upload_date) == opt_str(meta.upload_date),
        opt_str(r.description) == opt_str(meta.description),
        opt_str(r.thumbnail) == opt_str(meta.thumbnail),
        r.view_count == meta.view_count,
        r.like_count == meta.like_count,
        r.path@ == path@,
        r.speaker_count == clamp_i32(speakers(data.utterances@).len()),
        r.word_count == clamp_i32(word_count_spec(data.text@)),
        r.confidence == data.confidence,
        r.transcript_text@ == data.text@,
{
    let speakers = speaker_count(&data.utterances);
    let words = word_count(data.text.as_str());
    TranscriptMetadata {
        video_id: meta.id.clone(),
        url: String::from_str(url),
        title: meta.title.clone(),
        channel: meta.channel.clone(),
        channel_handle: clone_opt(&meta.uploader_id),
        channel_id: clone_opt(&meta.uploader_id),
        platform: String::from_str(platform),
        duration: meta.duration,
        upload_date: clone_opt(&meta.upload_date),
        description: clone_opt(&meta.description),
        thumbnail: clone_opt(&meta.thumbnail),
        view_count: meta.view_count,
        like_count: meta.like_count,
        path: String::from_str(path),
        speaker_count: clamp_count(speakers),
        word_count: clamp_count(words),
        confidence: data.confidence,
        transcript_text: data.text.clone(),
    }
}

} // verus!
