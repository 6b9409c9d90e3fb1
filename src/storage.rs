//! Storage layout: file-name sanitizing, platform classification, the
//! directory layout of a transcript, and listing of transcript directories.
use vstd::prelude::*;
use crate::text::{
    after_seq, before_seq, chars_of, contains_chars, contains_seq, is_white_space, split_after,
    split_before, starts_with_chars, starts_with_seq, string_of, string_of_range, to_lower,
    lower_of, vec_range,
};
use crate::config::{join_path, join_spec, or_default};
use crate::error::Error;
use crate::transcriber::TranscriptData;
use crate::index::{
    clone_opt, opt_str, opt_view, optional_substring_filter, or_else, substring_filter,
    StoredMetadata,
};

verus! {

/// Characters that file systems refuse in a name.
pub open spec fn is_reserved(c: char) -> bool {
    c == '<' || c == '>' || c == ':' || c == '"' || c == '/' || c == '\\' || c == '|' || c
        == '?' || c == '*'
}

pub open spec fn replace_reserved_spec(s: Seq<char>) -> Seq<char> {
    s.map_values(|c: char| if is_reserved(c) { '_' } else { c })
}

pub open spec fn is_separator(c: char) -> bool {
    is_white_space(c) || c == '_'
}

/// Each maximal run of whitespace and underscores becomes one `_`.
pub open spec fn collapse_spec(s: Seq<char>) -> Seq<char>
    decreases s.len(),
{
    if s.len() == 0 {
        s
    } else {
        let prev = collapse_spec(s.drop_last());
        if !is_separator(s.last()) {
            prev.push(s.last())
        } else if s.len() >= 2 && is_separator(s[s.len() - 2]) {
            prev
        } else {
            prev.push('_')
        }
    }
}

pub open spec fn is_pad(c: char) -> bool {
    c == '_' || c == ' '
}

pub open spec fn trim_start_pad(s: Seq<char>) -> Seq<char>
    decreases s.len(),
{
    if s.len() > 0 && is_pad(s[0]) {
        trim_start_pad(s.drop_first())
    } else {
        s
    }
}

pub open spec fn trim_end_pad(s: Seq<char>) -> Seq<char>
    decreases s.len(),
{
    if s.len() > 0 && is_pad(s.last()) {
        trim_end_pad(s.drop_last())
    } else {
        s
    }
}

pub open spec fn trim_end_underscore(s: Seq<char>) -> Seq<char>
    decreases s.len(),
{
    if s.len() > 0 && s.last() == '_' {
        trim_end_underscore(s.drop_last())
    } else {
        s
    }
}

pub open spec fn untitled() -> Seq<char> {
    seq!['u', 'n', 't', 'i', 't', 'l', 'e', 'd']
}

/// The name with reserved characters replaced, separator runs collapsed and
/// padding trimmed, before it is cut to length.
pub open spec fn trimmed_spec(name: Seq<char>) -> Seq<char> {
    trim_end_pad(trim_start_pad(collapse_spec(replace_reserved_spec(name))))
}

/// What a name becomes as one segment of a storage path, at most
/// `max_len` characters long.
pub open spec fn sanitize_spec(name: Seq<char>, max_len: nat) -> Seq<char> {
    let t = trimmed_spec(name);
    let cut = if t.len() > max_len {
        trim_end_underscore(t.take(max_len as int))
    } else {
        t
    };
    if cut.len() == 0 {
        untitled()
    } else {
        cut
    }
}

/// Relies on `regex::Regex::replace_all` with the class `[<>:"/\\|?*]` and
/// the replacement `_`: each character of the class becomes `_`.
#[verifier::external_body]
fn replace_reserved(s: &str) -> (r: String)
    ensures
        r@ == replace_reserved_spec(s@),
{
    regex::Regex::new(r#"[<>:"/\\|?*]"#).unwrap().replace_all(s, "_").into_owned()
}

/// Relies on `regex::Regex::replace_all` with the pattern `[\s_]+` and the
/// replacement `_`: each maximal run of `White_Space` characters and
/// underscores becomes one `_`.
#[verifier::external_body]
fn collapse_separators(s: &str) -> (r: String)
    ensures
        r@ == collapse_spec(s@),
{
    regex::Regex::new(r"[\s_]+").unwrap().replace_all(s, "_").into_owned()
}

fn is_pad_char(c: char) -> (r: bool)
    ensures
        r == is_pad(c),
{
    c == '_' || c == ' '
}

/// Sanitize a string for use as a file name: reserved characters become
/// `_`, runs of whitespace and underscores become one `_`, leading and
/// trailing `_` and spaces are dropped, the result is cut to `max_length`
/// characters (dropping trailing `_` after the cut), and an empty result
/// becomes `untitled`.
pub fn sanitize_filename(name: &str, max_length: usize) -> (r: String)
    ensures
        r@ == sanitize_spec(name@, max_length as nat),
{
    let a = replace_reserved(name);
    let b = collapse_separators(a.as_str());
    let v = chars_of(b.as_str());
    let ghost c = v@;
    let mut lo: usize = 0;
    assert(c.subrange(0, c.len() as int) =~= c);
    while lo < v.len() && is_pad_char(v[lo])
        invariant
            v@ == c,
            lo <= v.len(),
            trim_start_pad(c) == trim_start_pad(c.subrange(lo as int, c.len() as int)),
        decreases v.len() - lo,
    {
        let ghost sub = c.subrange(lo as int, c.len() as int);
        assert(sub.drop_first() =~= c.subrange(lo + 1, c.len() as int));
        lo += 1;
    }
    let ghost t0 = c.subrange(lo as int, c.len() as int);
    assert(trim_start_pad(t0) == t0);
    let mut hi: usize = v.len();
    while hi > lo && is_pad_char(v[hi - 1])
        invariant
            v@ == c,
            lo <= hi <= v.len(),
            trim_end_pad(t0) == trim_end_pad(c.subrange(lo as int, hi as int)),
        decreases hi,
    {
        let ghost sub = c.subrange(lo as int, hi as int);
        assert(sub.drop_last() =~= c.subrange(lo as int, hi - 1));
        hi -= 1;
    }
    let ghost t = c.subrange(lo as int, hi as int);
    assert(trim_end_pad(t) == t);
    if hi - lo > max_length {
        let mut end: usize = lo + max_length;
        assert(t.take(max_length as int) =~= c.subrange(lo as int, end as int));
        let ghost cut0 = c.subrange(lo as int, end as int);
        while end > lo && v[end - 1] == '_'
            invariant
                v@ == c,
                hi <= v.len(),
                lo <= end <= hi,
                trim_end_underscore(cut0) == trim_end_underscore(
                    c.subrange(lo as int, end as int),
                ),
            decreases end,
        {
            let ghost sub = c.subrange(lo as int, end as int);
            assert(sub.drop_last() =~= c.subrange(lo as int, end - 1));
            end -= 1;
        }
        hi = end;
    }
    if hi == lo {
        let r = String::from_str("untitled");
        proof {
            reveal_strlit("untitled");
            assert(r@ =~= untitled());
        }
        r
    } else {
        string_of_range(&v, lo, hi)
    }
}

/// A name with no reserved or whitespace character, no two underscores in a
/// row, and no underscore at either end.
pub open spec fn is_clean(y: Seq<char>) -> bool {
    &&& forall|i: int| 0 <= i < y.len() ==> !is_reserved(#[trigger] y[i]) && !is_white_space(y[i])
    &&& forall|i: int| 0 <= i < y.len() - 1 ==> !(#[trigger] y[i] == '_' && y[i + 1] == '_')
    &&& y.len() > 0 ==> y[0] != '_' && y.last() != '_'
}

proof fn lemma_collapse_props(s: Seq<char>)
    ensures
        collapse_spec(s).len() == 0 <==> s.len() == 0,
        s.len() > 0 ==> (collapse_spec(s).last() == '_' <==> is_separator(s.last())),
        forall|i: int|
            0 <= i < collapse_spec(s).len() ==> !is_white_space(#[trigger] collapse_spec(s)[i]),
        (forall|j: int| 0 <= j < s.len() ==> !is_reserved(#[trigger] s[j])) ==> forall|i: int|
            0 <= i < collapse_spec(s).len() ==> !is_reserved(#[trigger] collapse_spec(s)[i]),
        forall|i: int|
            0 <= i < collapse_spec(s).len() - 1 ==> !(#[trigger] collapse_spec(s)[i] == '_'
                && collapse_spec(s)[i + 1] == '_'),
    decreases s.len(),
{
    if s.len() > 0 {
        let d = s.drop_last();
        lemma_collapse_props(d);
        if forall|j: int| 0 <= j < s.len() ==> !is_reserved(#[trigger] s[j]) {
            assert forall|j: int| 0 <= j < d.len() implies !is_reserved(#[trigger] d[j]) by {
                assert(d[j] == s[j]);
            }
        }
        if s.len() >= 2 {
            assert(d.last() == s[s.len() - 2]);
        }
    }
}

proof fn lemma_collapse_identity(y: Seq<char>)
    requires
        forall|i: int| 0 <= i < y.len() ==> !is_white_space(#[trigger] y[i]),
        forall|i: int| 0 <= i < y.len() - 1 ==> !(#[trigger] y[i] == '_' && y[i + 1] == '_'),
    ensures
        collapse_spec(y) == y,
    decreases y.len(),
{
    if y.len() > 0 {
        let d = y.drop_last();
        assert forall|i: int| 0 <= i < d.len() - 1 implies !(#[trigger] d[i] == '_' && d[i + 1]
            == '_') by {
            assert(d[i] == y[i] && d[i + 1] == y[i + 1]);
        }
        lemma_collapse_identity(d);
        if y.len() >= 2 {
            assert(!(y[y.len() - 2] == '_' && y[y.len() - 1] == '_'));
        }
        assert(d.push(y.last()) =~= y);
    }
}

proof fn lemma_trim_start(s: Seq<char>) -> (k: int)
    ensures
        0 <= k <= s.len(),
        trim_start_pad(s) == s.subrange(k, s.len() as int),
        k < s.len() ==> !is_pad(s[k]),
    decreases s.len(),
{
    if s.len() > 0 && is_pad(s[0]) {
        let k0 = lemma_trim_start(s.drop_first());
        assert(s.drop_first().subrange(k0, s.len() - 1) =~= s.subrange(k0 + 1, s.len() as int));
        k0 + 1
    } else {
        assert(s.subrange(0, s.len() as int) =~= s);
        0
    }
}

proof fn lemma_trim_end(s: Seq<char>) -> (k: int)
    ensures
        0 <= k <= s.len(),
        trim_end_pad(s) == s.subrange(0, k),
        k > 0 ==> !is_pad(s[k - 1]),
    decreases s.len(),
{
    if s.len() > 0 && is_pad(s.last()) {
        let k0 = lemma_trim_end(s.drop_last());
        assert(s.drop_last().subrange(0, k0) =~= s.subrange(0, k0));
        k0
    } else {
        assert(s.subrange(0, s.len() as int) =~= s);
        s.len() as int
    }
}

proof fn lemma_trim_end_underscore(s: Seq<char>) -> (k: int)
    ensures
        0 <= k <= s.len(),
        trim_end_underscore(s) == s.subrange(0, k),
        k > 0 ==> s[k - 1] != '_',
    decreases s.len(),
{
    if s.len() > 0 && s.last() == '_' {
        let k0 = lemma_trim_end_underscore(s.drop_last());
        assert(s.drop_last().subrange(0, k0) =~= s.subrange(0, k0));
        k0
    } else {
        assert(s.subrange(0, s.len() as int) =~= s);
        s.len() as int
    }
}

proof fn lemma_untitled_clean()
    ensures
        is_clean(untitled()),
        untitled().len() == 8,
{
    let u = untitled();
    assert forall|i: int| 0 <= i < u.len() implies !is_reserved(#[trigger] u[i])
        && !is_white_space(u[i]) by {
        assert(i == 0 || i == 1 || i == 2 || i == 3 || i == 4 || i == 5 || i == 6 || i == 7);
    }
    assert forall|i: int| 0 <= i < u.len() - 1 implies !(#[trigger] u[i] == '_' && u[i + 1]
        == '_') by {
        assert(i == 0 || i == 1 || i == 2 || i == 3 || i == 4 || i == 5 || i == 6);
    }
}

/// What sanitizing returns is clean, and at most `max_len` long unless it
/// is `untitled`.
proof fn lemma_sanitize_clean(name: Seq<char>, max_len: nat)
    ensures
        is_clean(sanitize_spec(name, max_len)),
        sanitize_spec(name, max_len).len() <= max_len || sanitize_spec(name, max_len)
            == untitled(),
{
    lemma_untitled_clean();
    let rep = replace_reserved_spec(name);
    assert forall|j: int| 0 <= j < rep.len() implies !is_reserved(#[trigger] rep[j]) by {}
    let col = collapse_spec(rep);
    lemma_collapse_props(rep);
    let k1 = lemma_trim_start(col);
    let ts = col.subrange(k1, col.len() as int);
    let k2 = lemma_trim_end(ts);
    let t = trimmed_spec(name);
    assert(t == col.subrange(k1, k1 + k2));
    let cut = if t.len() > max_len {
        trim_end_underscore(t.take(max_len as int))
    } else {
        t
    };
    let mut k3: int = t.len() as int;
    if t.len() > max_len {
        let u = t.take(max_len as int);
        k3 = lemma_trim_end_underscore(u);
        assert(cut == t.subrange(0, k3));
        if k3 > 0 {
            assert(cut.last() == u[k3 - 1]);
        }
    } else {
        assert(cut == t.subrange(0, k3));
    }
    if cut.len() > 0 {
        assert(cut == col.subrange(k1, k1 + k3));
        assert forall|i: int| 0 <= i < cut.len() implies !is_reserved(#[trigger] cut[i])
            && !is_white_space(cut[i]) by {
            assert(cut[i] == col[k1 + i]);
        }
        assert forall|i: int| 0 <= i < cut.len() - 1 implies !(#[trigger] cut[i] == '_' && cut[i
            + 1] == '_') by {
            assert(cut[i] == col[k1 + i] && cut[i + 1] == col[k1 + i + 1]);
        }
        assert(cut[0] == col[k1]);
        assert(cut.last() == t[k3 - 1]);
        assert(t[k3 - 1] == ts[k3 - 1]);
        if k3 == k2 {
            assert(!is_pad(ts[k2 - 1]));
        }
    }
}

/// A clean, non-empty name comes through replacing, collapsing and trimming
/// unchanged.
proof fn lemma_trimmed_fixed(y: Seq<char>)
    requires
        is_clean(y),
        y.len() > 0,
    ensures
        trimmed_spec(y) == y,
{
    assert(replace_reserved_spec(y) =~= y);
    lemma_collapse_identity(y);
    assert(!is_white_space(y[0]));
    assert(!is_white_space(y.last()));
    assert(trim_start_pad(y) == y);
    assert(trim_end_pad(y) == y);
}

/// The result of sanitizing is never empty.
pub proof fn lemma_sanitize_nonempty(name: Seq<char>, max_len: nat)
    ensures
        sanitize_spec(name, max_len).len() > 0,
{
    lemma_untitled_clean();
}

/// Sanitizing twice with the same bound gives what sanitizing once gave.
/// This fails only where the result is `untitled` and the bound is between
/// one and seven, too short to hold `untitled` itself.
pub proof fn lemma_sanitize_idempotent(name: Seq<char>, max_len: nat)
    requires
        max_len == 0 || max_len >= 8 || sanitize_spec(name, max_len) != untitled(),
    ensures
        sanitize_spec(sanitize_spec(name, max_len), max_len) == sanitize_spec(name, max_len),
{
    let y = sanitize_spec(name, max_len);
    lemma_untitled_clean();
    lemma_sanitize_clean(name, max_len);
    lemma_trimmed_fixed(y);
    if max_len == 0 && y.len() > 0 {
        assert(y == untitled());
        assert(trim_end_underscore(y.take(0)) =~= Seq::<char>::empty());
    }
}

/// A name made only of reserved characters sanitizes to `untitled`.
pub proof fn lemma_sanitize_reserved_only(name: Seq<char>, max_len: nat)
    requires
        forall|i: int| 0 <= i < name.len() ==> is_reserved(#[trigger] name[i]),
    ensures
        sanitize_spec(name, max_len) == untitled(),
{
    let rep = replace_reserved_spec(name);
    lemma_collapse_all_separators(rep);
    let col = collapse_spec(rep);
    if rep.len() > 0 {
        assert(col =~= seq!['_']);
        assert(trim_start_pad(col) =~= trim_start_pad(col.drop_first()));
        assert(col.drop_first() =~= Seq::<char>::empty());
    }
    assert(trimmed_spec(name).len() == 0);
}

proof fn lemma_collapse_all_separators(s: Seq<char>)
    requires
        forall|i: int| 0 <= i < s.len() ==> (#[trigger] s[i]) == '_',
    ensures
        s.len() == 0 ==> collapse_spec(s).len() == 0,
        s.len() > 0 ==> collapse_spec(s) =~= seq!['_'],
    decreases s.len(),
{
    if s.len() > 0 {
        let d = s.drop_last();
        assert forall|i: int| 0 <= i < d.len() implies (#[trigger] d[i]) == '_' by {
            assert(d[i] == s[i]);
        }
        lemma_collapse_all_separators(d);
        if s.len() >= 2 {
            assert(s[s.len() - 2] == '_');
        }
    }
}

/// The host part of a lowercased URL: after the first `://` up to the next
/// one, or the whole text when there is none; then up to the first `/`.
pub open spec fn host_spec(lowered: Seq<char>) -> Seq<char> {
    let segment = match after_seq(lowered, "://"@) {
        Some(rest) => before_seq(rest, "://"@),
        None => lowered,
    };
    before_seq(segment, "/"@)
}

/// The host without one leading `www.`.
pub open spec fn domain_spec(lowered: Seq<char>) -> Seq<char> {
    let host = host_spec(lowered);
    if starts_with_seq(host, "www."@) {
        host.skip(4)
    } else {
        host
    }
}

/// The fixed table of known platforms, first match wins.
pub open spec fn known_platform(domain: Seq<char>) -> Option<Seq<char>> {
    if contains_seq(domain, "youtube.com"@) {
        Some("youtube"@)
    } else if contains_seq(domain, "youtu.be"@) {
        Some("youtube"@)
    } else if contains_seq(domain, "vimeo.com"@) {
        Some("vimeo"@)
    } else if contains_seq(domain, "twitter.com"@) {
        Some("twitter"@)
    } else if contains_seq(domain, "x.com"@) {
        Some("twitter"@)
    } else if contains_seq(domain, "twitch.tv"@) {
        Some("twitch"@)
    } else if contains_seq(domain, "dailymotion.com"@) {
        Some("dailymotion"@)
    } else if contains_seq(domain, "facebook.com"@) {
        Some("facebook"@)
    } else if contains_seq(domain, "fb.watch"@) {
        Some("facebook"@)
    } else if contains_seq(domain, "instagram.com"@) {
        Some("instagram"@)
    } else if contains_seq(domain, "tiktok.com"@) {
        Some("tiktok"@)
    } else {
        None
    }
}

/// The platform tag of a lowercased URL: the table's tag for its domain,
/// else the domain's first label, else `unknown`.
pub open spec fn platform_spec(lowered: Seq<char>) -> Seq<char> {
    let domain = domain_spec(lowered);
    match known_platform(domain) {
        Some(tag) => tag,
        None => {
            let label = before_seq(domain, "."@);
            if label.len() == 0 {
                "unknown"@
            } else {
                label
            }
        },
    }
}

fn has(d: &Vec<char>, pattern: &str) -> (r: bool)
    ensures
        r == contains_seq(d@, pattern@),
{
    let p = chars_of(pattern);
    contains_chars(d, &p)
}

fn known_platform_exec(d: &Vec<char>) -> (r: Option<&'static str>)
    ensures
        match r {
            Some(tag) => known_platform(d@) == Some(tag@),
            None => known_platform(d@) is None,
        },
{
    if has(d, "youtube.com") {
        Some("youtube")
    } else if has(d, "youtu.be") {
        Some("youtube")
    } else if has(d, "vimeo.com") {
        Some("vimeo")
    } else if has(d, "twitter.com") {
        Some("twitter")
    } else if has(d, "x.com") {
        Some("twitter")
    } else if has(d, "twitch.tv") {
        Some("twitch")
    } else if has(d, "dailymotion.com") {
        Some("dailymotion")
    } else if has(d, "facebook.com") {
        Some("facebook")
    } else if has(d, "fb.watch") {
        Some("facebook")
    } else if has(d, "instagram.com") {
        Some("instagram")
    } else if has(d, "tiktok.com") {
        Some("tiktok")
    } else {
        None
    }
}

/// The domain of an already lowercased URL.
pub fn domain_of_lowered(lowered: &str) -> (r: Vec<char>)
    ensures
        r@ == domain_spec(lowered@),
{
    let l = chars_of(lowered);
    let scheme = chars_of("://");
    let segment = match split_after(&l, &scheme) {
        Some(rest) => split_before(&rest, &scheme),
        None => l,
    };
    let slash = chars_of("/");
    let host = split_before(&segment, &slash);
    let www = chars_of("www.");
    if starts_with_chars(&host, &www) {
        proof {
            reveal_strlit("www.");
        }
        vec_range(&host, 4, host.len())
    } else {
        host
    }
}

/// The platform tag of an already lowercased URL.
pub fn platform_of_lowered(lowered: &str) -> (r: String)
    ensures
        r@ == platform_spec(lowered@),
{
    let domain = domain_of_lowered(lowered);
    match known_platform_exec(&domain) {
        Some(tag) => String::from_str(tag),
        None => {
            let dot = chars_of(".");
            let label = split_before(&domain, &dot);
            if label.len() == 0 {
                String::from_str("unknown")
            } else {
                string_of(&label)
            }
        },
    }
}

/// Detect the platform of a video URL: the URL is lowercased, its domain
/// taken without a leading `www.`, and matched against the table of known
/// platforms; an unknown domain gives its first label.
pub fn get_platform_from_url(url: &str) -> (r: String)
    ensures
        r@ == platform_spec(lower_of(url@)),
{
    let lowered = to_lower(url);
    platform_of_lowered(lowered.as_str())
}

/// A domain that the table does not know is classified by its first label,
/// or as `unknown` when that label is empty.
pub proof fn lemma_platform_unknown_domain(lowered: Seq<char>)
    requires
        known_platform(domain_spec(lowered)) is None,
    ensures
        before_seq(domain_spec(lowered), "."@).len() > 0 ==> platform_spec(lowered) == before_seq(
            domain_spec(lowered),
            "."@,
        ),
        before_seq(domain_spec(lowered), "."@).len() == 0 ==> platform_spec(lowered) == "unknown"@,
{
}

/// A domain that the table knows gets the table's tag, whatever else the
/// URL holds.
pub proof fn lemma_platform_known_domain(lowered: Seq<char>)
    requires
        known_platform(domain_spec(lowered)) is Some,
    ensures
        platform_spec(lowered) == known_platform(domain_spec(lowered))->0,
{
}

/// The directory of a transcript: `<root>/<platform>/<channel>/<video id>`,
/// with the channel sanitized to at most 100 characters and the video id to
/// at most 50.
pub open spec fn storage_path_spec(
    root: Seq<char>,
    platform: Seq<char>,
    channel: Seq<char>,
    video_id: Seq<char>,
) -> Seq<char> {
    join_spec(
        join_spec(join_spec(root, platform), sanitize_spec(channel, 100)),
        sanitize_spec(video_id, 50),
    )
}

/// The directory that holds the files of one transcript.
pub fn storage_path(root: &str, platform: &str, channel: &str, video_id: &str) -> (r: String)
    ensures
        r@ == storage_path_spec(root@, platform@, channel@, video_id@),
{
    let safe_channel = sanitize_filename(channel, 100);
    let safe_video_id = sanitize_filename(video_id, 50);
    let p = join_path(root, platform);
    let c = join_path(p.as_str(), safe_channel.as_str());
    join_path(c.as_str(), safe_video_id.as_str())
}

/// What a listing shows of one transcript directory.
#[derive(Debug, Clone)]
pub struct TranscriptInfo {
    pub path: String,
    pub title: String,
    pub channel: String,
    pub channel_handle: Option<String>,
    pub platform: String,
    pub duration: Option<i64>,
    pub upload_date: Option<String>,
    pub url: Option<String>,
}

/// The listing entry of a transcript directory: its name as title, its
/// parent's name as channel and its grandparent's as platform, then what
/// its readable metadata holds in their place.
pub open spec fn leaf_info_spec(
    path: Seq<char>,
    dir_name: Seq<char>,
    parent: Option<&str>,
    grandparent: Option<&str>,
    meta: Option<StoredMetadata>,
    r: TranscriptInfo,
) -> bool {
    &&& r.path@ == path
    &&& r.title@ == dir_name
    &&& r.platform@ == or_default(grandparent, "unknown"@)
    &&& match meta {
        Some(m) => {
            &&& r.channel@ == or_else(m.channel, or_default(parent, "Unknown"@))
            &&& opt_str(r.channel_handle) == opt_str(m.uploader_id)
            &&& r.duration == m.duration
            &&& opt_str(r.upload_date) == opt_str(m.upload_date)
            &&& opt_str(r.url) == opt_str(m.url)
        },
        None => {
            &&& r.channel@ == or_default(parent, "Unknown"@)
            &&& r.channel_handle is None
            &&& r.duration is None
            &&& r.upload_date is None
            &&& r.url is None
        },
    }
}

fn str_or(o: Option<&str>, d: &str) -> (r: String)
    ensures
        r@ == or_default(o, d@),
{
    match o {
        Some(s) => String::from_str(s),
        None => String::from_str(d),
    }
}

/// The listing entry of a transcript directory. `meta` is its
/// `metadata.json` when that could be read and parsed.
pub fn leaf_info(
    path: &str,
    dir_name: &str,
    parent: Option<&str>,
    grandparent: Option<&str>,
    meta: Option<&StoredMetadata>,
) -> (r: TranscriptInfo)
    ensures
        leaf_info_spec(
            path@,
            dir_name@,
            parent,
            grandparent,
            match meta {
                Some(m) => Some(*m),
                None => None,
            },
            r,
        ),
{
    let default_channel = str_or(parent, "Unknown");
    let platform = str_or(grandparent, "unknown");
    match meta {
        Some(m) => {
            let channel = match &m.channel {
                Some(c) => c.clone(),
                None => default_channel,
            };
            TranscriptInfo {
                path: String::from_str(path),
                title: String::from_str(dir_name),
                channel,
                channel_handle: clone_opt(&m.uploader_id),
                platform,
                duration: m.duration,
                upload_date: clone_opt(&m.upload_date),
                url: clone_opt(&m.url),
            }
        },
        None => TranscriptInfo {
            path: String::from_str(path),
            title: String::from_str(dir_name),
            channel: default_channel,
            channel_handle: None,
            platform,
            duration: None,
            upload_date: None,
            url: None,
        },
    }
}

pub open spec fn info_pred(channel: Option<Seq<char>>, handle: Option<Seq<char>>) -> spec_fn(
    TranscriptInfo,
) -> bool {
    |t: TranscriptInfo|
        substring_filter(t.channel@, channel) && optional_substring_filter(
            opt_str(t.channel_handle),
            handle,
        )
}

fn passes(value: &str, filter: &Option<String>) -> (r: bool)
    ensures
        r == match filter {
            Some(f) => contains_seq(lower_of(value@), f@),
            None => true,
        },
{
    match filter {
        Some(f) => {
            let l = to_lower(value);
            crate::text::str_contains(l.as_str(), f.as_str())
        },
        None => true,
    }
}

/// Keep the transcript directories found under the transcripts root (or
/// under the platform asked for) whose channel contains `channel` and whose
/// handle contains `handle`, both compared lowercased; order is kept.
pub fn list_transcripts(
    found: Vec<TranscriptInfo>,
    channel: Option<&str>,
    handle: Option<&str>,
) -> (r: Vec<TranscriptInfo>)
    ensures
        r@ == found@.filter(info_pred(opt_view(channel), opt_view(handle))),
{
    let ghost pred = info_pred(opt_view(channel), opt_view(handle));
    let ghost orig = found@;
    assert(orig.len() == found.len());
    let cf = match channel {
        Some(c) => Some(to_lower(c)),
        None => None,
    };
    let hf = match handle {
        Some(h) => Some(to_lower(h)),
        None => None,
    };
    let mut rest = found;
    let mut out: Vec<TranscriptInfo> = Vec::new();
    let mut i: usize = 0;
    proof {
        reveal(Seq::filter);
    }
    assert(orig.take(0).filter(pred) =~= Seq::<TranscriptInfo>::empty());
    while rest.len() > 0
        invariant
            i + rest@.len() == orig.len(),
            orig.len() <= usize::MAX,
            rest@ == orig.skip(i as int),
            out@ == orig.take(i as int).filter(pred),
            pred == info_pred(opt_view(channel), opt_view(handle)),
            match channel {
                Some(s) => cf is Some && cf->0@ == lower_of(s@),
                None => cf is None,
            },
            match handle {
                Some(s) => hf is Some && hf->0@ == lower_of(s@),
                None => hf is None,
            },
        decreases rest.len(),
    {
        let t = rest.remove(0);
        assert(t == orig[i as int]);
        assert(orig.take(i + 1) =~= orig.take(i as int).push(t));
        proof {
            orig.take(i as int).lemma_filter_push(t, pred);
        }
        let channel_ok = passes(t.channel.as_str(), &cf);
        let handle_ok = match &hf {
            Some(_) => match &t.channel_handle {
                Some(h) => passes(h.as_str(), &hf),
                None => false,
            },
            None => true,
        };
        if channel_ok && handle_ok {
            out.push(t);
        }
        i += 1;
        assert(rest@ =~= orig.skip(i as int));
    }
    assert(orig.take(i as int) =~= orig);
    out
}

/// What reading a transcript found: its prose and its structured data.
#[derive(Debug, Clone)]
pub struct TranscriptContent {
    pub text: Option<String>,
    pub structured: Option<TranscriptData>,
}

/// The prose file of a transcript directory: `transcript.md` when it
/// exists, else `transcript.txt`.
pub fn text_file_name(md_exists: bool) -> (r: &'static str)
    ensures
        md_exists ==> r@ == "transcript.md"@,
        !md_exists ==> r@ == "transcript.txt"@,
{
    if md_exists {
        "transcript.md"
    } else {
        "transcript.txt"
    }
}

/// The content read at `path`: a not-found error exactly when neither the
/// prose nor the structured data was there.
pub fn transcript_content(
    path: &str,
    text: Option<String>,
    structured: Option<TranscriptData>,
) -> (r: Result<TranscriptContent, Error>)
    ensures
        r is Err <==> (text is None && structured is None),
        r is Err ==> r->Err_0 is FileNotFound && r->Err_0->FileNotFound_0@ == "No transcript found at "@
            + path@,
        r is Ok ==> opt_str(r->Ok_0.text) == opt_str(text) && r->Ok_0.structured == structured,
{
    if text.is_none() && structured.is_none() {
        let mut m = String::from_str("No transcript found at ");
        crate::text::push_str(&mut m, path);
        return Err(Error::FileNotFound(m));
    }
    Ok(TranscriptContent { text, structured })
}

} // verus!
