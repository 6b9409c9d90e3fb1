//! Transcript data, its two text presentations, and the formatting of
//! timestamps.
use vstd::prelude::*;
use crate::text::{push_char, push_str};

verus! {

/// One diarized span of speech. `confidence` holds the IEEE-754 bit
/// pattern of the provider's score.
#[derive(Debug, Clone)]
pub struct Utterance {
    pub speaker: String,
    pub text: String,
    pub start: i64,
    pub end: i64,
    pub confidence: Option<u64>,
}

/// One recognised word. `confidence` holds the IEEE-754 bit pattern of the
/// provider's score.
#[derive(Debug, Clone)]
pub struct Word {
    pub text: String,
    pub start: i64,
    pub end: i64,
    pub confidence: Option<u64>,
    pub speaker: Option<String>,
}

/// A finished transcript. `confidence` holds the IEEE-754 bit pattern of
/// the provider's score.
#[derive(Debug, Clone)]
pub struct TranscriptData {
    pub id: String,
    pub text: String,
    pub utterances: Vec<Utterance>,
    pub words: Vec<Word>,
    pub confidence: Option<u64>,
    pub audio_duration: Option<i64>,
}

/// Consecutive utterances of one speaker, merged.
#[derive(Debug, Clone)]
pub struct Paragraph {
    pub speaker: String,
    pub text: String,
    pub start: i64,
}

pub open spec fn para_view(p: Paragraph) -> (Seq<char>, Seq<char>, i64) {
    (p.speaker@, p.text@, p.start)
}

/// The paragraphs of a sequence of utterances: an utterance joins the last
/// paragraph, after a space, when its speaker is that paragraph's speaker,
/// and opens a new one, starting at its own start, otherwise.
pub open spec fn batches(u: Seq<Utterance>) -> Seq<(Seq<char>, Seq<char>, i64)>
    decreases u.len(),
{
    if u.len() == 0 {
        Seq::empty()
    } else {
        let prev = batches(u.drop_last());
        let x = u.last();
        if prev.len() > 0 && prev.last().0 == x.speaker@ {
            prev.update(
                prev.len() - 1,
                (prev.last().0, prev.last().1 + " "@ + x.text@, prev.last().2),
            )
        } else {
            prev.push((x.speaker@, x.text@, x.start))
        }
    }
}

/// The parts joined, with `sep` between each two.
pub open spec fn join_spec(parts: Seq<Seq<char>>, sep: Seq<char>) -> Seq<char>
    decreases parts.len(),
{
    if parts.len() == 0 {
        Seq::empty()
    } else if parts.len() == 1 {
        parts[0]
    } else {
        join_spec(parts.drop_last(), sep) + sep + parts.last()
    }
}

pub open spec fn digit_char(d: int) -> char {
    if d == 0 {
        '0'
    } else if d == 1 {
        '1'
    } else if d == 2 {
        '2'
    } else if d == 3 {
        '3'
    } else if d == 4 {
        '4'
    } else if d == 5 {
        '5'
    } else if d == 6 {
        '6'
    } else if d == 7 {
        '7'
    } else if d == 8 {
        '8'
    } else {
        '9'
    }
}

/// The decimal digits of `n`.
pub open spec fn digits(n: nat) -> Seq<char>
    decreases n,
{
    if n < 10 {
        seq![digit_char(n as int)]
    } else {
        digits(n / 10).push(digit_char((n % 10) as int))
    }
}

/// An integer printed with at least two characters, zero-padded.
pub open spec fn pad2(n: int) -> Seq<char> {
    if n < 0 {
        seq!['-'] + digits((-n) as nat)
    } else if n < 10 {
        seq!['0'] + digits(n as nat)
    } else {
        digits(n as nat)
    }
}

/// Integer division rounding toward zero.
pub open spec fn tdiv(a: int, b: int) -> int {
    if a >= 0 {
        a / b
    } else {
        -((-a) / b)
    }
}

/// The remainder that goes with `tdiv`: it has the sign of `a`.
pub open spec fn trem(a: int, b: int) -> int {
    a - b * tdiv(a, b)
}

/// `MM:SS`, or `HH:MM:SS` from one hour on, of an offset in milliseconds.
pub open spec fn timestamp_spec(ms: int) -> Seq<char> {
    let seconds = tdiv(ms, 1000);
    let minutes = tdiv(seconds, 60);
    let hours = tdiv(minutes, 60);
    if hours > 0 {
        pad2(hours) + ":"@ + pad2(trem(minutes, 60)) + ":"@ + pad2(trem(seconds, 60))
    } else {
        pad2(minutes) + ":"@ + pad2(trem(seconds, 60))
    }
}

pub open spec fn plain_paragraph(p: (Seq<char>, Seq<char>, i64)) -> Seq<char> {
    "Speaker "@ + p.0 + ": "@ + p.1
}

pub open spec fn markdown_paragraph(p: (Seq<char>, Seq<char>, i64)) -> Seq<char> {
    "**Speaker "@ + p.0 + "** ["@ + timestamp_spec(p.2 as int) + "]: "@ + p.1
}

pub open spec fn utterances_view(d: TranscriptData) -> Seq<Utterance> {
    d.utterances@
}

/// The plain presentation: the flat text when there are no utterances,
/// else one `Speaker <token>: <text>` paragraph per batch, separated by a
/// blank line.
pub open spec fn plain_spec(d: TranscriptData) -> Seq<char> {
    if d.utterances@.len() == 0 {
        d.text@
    } else {
        join_spec(batches(d.utterances@).map_values(|p| plain_paragraph(p)), "\n\n"@)
    }
}

/// The Markdown presentation: a `## Transcript` heading, then the flat text
/// when there are no utterances, else one bold speaker label with the
/// batch's timestamp per paragraph, separated by a blank line.
pub open spec fn markdown_spec(d: TranscriptData) -> Seq<char> {
    "## Transcript\n\n"@ + if d.utterances@.len() == 0 {
        d.text@
    } else {
        join_spec(batches(d.utterances@).map_values(|p| markdown_paragraph(p)), "\n\n"@)
    }
}

fn digit_of(d: u64) -> (c: char)
    requires
        d < 10,
    ensures
        c == digit_char(d as int),
{
    if d == 0 {
        '0'
    } else if d == 1 {
        '1'
    } else if d == 2 {
        '2'
    } else if d == 3 {
        '3'
    } else if d == 4 {
        '4'
    } else if d == 5 {
        '5'
    } else if d == 6 {
        '6'
    } else if d == 7 {
        '7'
    } else if d == 8 {
        '8'
    } else {
        '9'
    }
}

pub fn push_digits(out: &mut String, n: u64)
    ensures
        final(out)@ == old(out)@ + digits(n as nat),
    decreases n,
{
    if n < 10 {
        push_char(out, digit_of(n));
        assert(digits(n as nat) =~= seq![digit_char(n as int)]);
    } else {
        push_digits(out, n / 10);
        push_char(out, digit_of(n % 10));
    }
}

/// Appends `pad2(n)` for `n` or `-n`, as `negative` says.
fn push_pad2(out: &mut String, n: u64, negative: bool)
    ensures
        final(out)@ == old(out)@ + pad2(if negative { -(n as int) } else { n as int }),
{
    if negative && n > 0 {
        push_char(out, '-');
        push_digits(out, n);
        assert(final(out)@ =~= old(out)@ + pad2(-(n as int)));
    } else if n < 10 {
        push_char(out, '0');
        push_digits(out, n);
        assert(final(out)@ =~= old(out)@ + pad2(n as int));
    } else {
        push_digits(out, n);
    }
}

/// Format a timestamp from milliseconds to `MM:SS`, or `HH:MM:SS` from one
/// hour on.
pub fn format_timestamp(ms: i64) -> (r: String)
    ensures
        r@ == timestamp_spec(ms as int),
{
    let negative = ms < 0;
    let a: u64 = if negative {
        (-(ms as i128)) as u64
    } else {
        ms as u64
    };
    let secs = a / 1000;
    let mins = secs / 60;
    let hours = mins / 60;
    proof {
        let seconds = tdiv(ms as int, 1000);
        let minutes = tdiv(seconds, 60);
        assert(seconds == if negative { -(secs as int) } else { secs as int });
        assert(minutes == if negative { -(mins as int) } else { mins as int });
        assert(tdiv(minutes, 60) == if negative { -(hours as int) } else { hours as int });
        assert(trem(minutes, 60) == if negative { -((mins % 60) as int) } else { (mins % 60) as int });
        assert(trem(seconds, 60) == if negative { -((secs % 60) as int) } else { (secs % 60) as int });
    }
    let mut r = String::new();
    if !negative && hours > 0 {
        push_pad2(&mut r, hours, false);
        push_char(&mut r, ':');
        push_pad2(&mut r, mins % 60, false);
        push_char(&mut r, ':');
        push_pad2(&mut r, secs % 60, false);
        proof {
            reveal_strlit(":");
        }
        assert(r@ =~= timestamp_spec(ms as int));
    } else {
        push_pad2(&mut r, mins, negative);
        push_char(&mut r, ':');
        push_pad2(&mut r, secs % 60, negative);
        proof {
            reveal_strlit(":");
        }
        assert(r@ =~= timestamp_spec(ms as int));
    }
    r
}

pub open spec fn paragraphs_view(ps: Seq<Paragraph>) -> Seq<(Seq<char>, Seq<char>, i64)> {
    ps.map_values(|p: Paragraph| para_view(p))
}

/// Batch consecutive utterances of one speaker into paragraphs, keeping
/// their order.
pub fn paragraphs(utterances: &Vec<Utterance>) -> (r: Vec<Paragraph>)
    ensures
        paragraphs_view(r@) == batches(utterances@),
{
    let mut r: Vec<Paragraph> = Vec::new();
    let mut i: usize = 0;
    assert(paragraphs_view(r@) =~= batches(utterances@.take(0)));
    while i < utterances.len()
        invariant
            i <= utterances.len(),
            paragraphs_view(r@) == batches(utterances@.take(i as int)),
        decreases utterances.len() - i,
    {
        let u = &utterances[i];
        let ghost before = r@;
        proof {
            assert(utterances@.take(i + 1).drop_last() =~= utterances@.take(i as int));
            assert(utterances@.take(i + 1).last() == *u);
            reveal_strlit(" ");
        }
        let n = r.len();
        if n > 0 && r[n - 1].speaker == u.speaker {
            let mut last = r.pop().unwrap();
            assert(last == before[n - 1]);
            assert(r@ =~= before.drop_last());
            let ghost old_text = last.text@;
            push_char(&mut last.text, ' ');
            push_str(&mut last.text, u.text.as_str());
            assert(last.text@ =~= old_text + " "@ + u.text@);
            r.push(last);
            proof {
                let bp = batches(utterances@.take(i as int));
                assert(bp.len() == n);
                assert forall|k: int| 0 <= k < n - 1 implies paragraphs_view(r@)[k] == bp[k] by {
                    assert(r@[k] == before[k]);
                }
                assert(bp.last() == para_view(before[n - 1]));
                assert(paragraphs_view(r@) =~= bp.update(
                    bp.len() - 1,
                    (bp.last().0, bp.last().1 + " "@ + u.text@, bp.last().2),
                ));
            }
        } else {
            let p = Paragraph { speaker: u.speaker.clone(), text: u.text.clone(), start: u.start };
            r.push(p);
            proof {
                let bp = batches(utterances@.take(i as int));
                if n > 0 {
                    assert(bp.last() == para_view(before[n - 1]));
                }
                assert(paragraphs_view(r@) =~= bp.push((u.speaker@, u.text@, u.start)));
            }
        }
        i += 1;
    }
    assert(utterances@.take(utterances.len() as int) =~= utterances@);
    r
}

fn render_plain(p: &Paragraph) -> (r: String)
    ensures
        r@ == plain_paragraph(para_view(*p)),
{
    let mut r = String::from_str("Speaker ");
    push_str(&mut r, p.speaker.as_str());
    push_str(&mut r, ": ");
    push_str(&mut r, p.text.as_str());
    r
}

fn render_markdown(p: &Paragraph) -> (r: String)
    ensures
        r@ == markdown_paragraph(para_view(*p)),
{
    let mut r = String::from_str("**Speaker ");
    push_str(&mut r, p.speaker.as_str());
    push_str(&mut r, "** [");
    let ts = format_timestamp(p.start);
    push_str(&mut r, ts.as_str());
    push_str(&mut r, "]: ");
    push_str(&mut r, p.text.as_str());
    r
}

/// The paragraphs rendered one by one and joined by blank lines.
fn render_all(ps: &Vec<Paragraph>, markdown: bool) -> (r: String)
    ensures
        markdown ==> r@ == join_spec(paragraphs_view(ps@).map_values(|p| markdown_paragraph(p)), "\n\n"@),
        !markdown ==> r@ == join_spec(paragraphs_view(ps@).map_values(|p| plain_paragraph(p)), "\n\n"@),
{
    let ghost render = |p: (Seq<char>, Seq<char>, i64)|
        if markdown {
            markdown_paragraph(p)
        } else {
            plain_paragraph(p)
        };
    let mut r = String::new();
    let mut i: usize = 0;
    assert(paragraphs_view(ps@).take(0).map_values(render) =~= Seq::<Seq<char>>::empty());
    while i < ps.len()
        invariant
            i <= ps.len(),
            render == (|p: (Seq<char>, Seq<char>, i64)|
                if markdown {
                    markdown_paragraph(p)
                } else {
                    plain_paragraph(p)
                }),
            r@ == join_spec(paragraphs_view(ps@).take(i as int).map_values(render), "\n\n"@),
        decreases ps.len() - i,
    {
        let part = if markdown {
            render_markdown(&ps[i])
        } else {
            render_plain(&ps[i])
        };
        let ghost parts = paragraphs_view(ps@).take(i + 1).map_values(render);
        assert(parts.drop_last() =~= paragraphs_view(ps@).take(i as int).map_values(render));
        assert(parts.last() == part@);
        if i > 0 {
            push_str(&mut r, "\n\n");
        } else {
            assert(parts =~= seq![part@]);
        }
        push_str(&mut r, part.as_str());
        i += 1;
    }
    assert(paragraphs_view(ps@).take(ps.len() as int) =~= paragraphs_view(ps@));
    if markdown {
        assert(paragraphs_view(ps@).map_values(render) =~= paragraphs_view(ps@).map_values(
            |p| markdown_paragraph(p),
        ));
    } else {
        assert(paragraphs_view(ps@).map_values(render) =~= paragraphs_view(ps@).map_values(
            |p| plain_paragraph(p),
        ));
    }
    r
}

/// Format transcript data as plain text: the flat text when there are no
/// utterances, else speaker paragraphs separated by blank lines.
pub fn format_transcript(data: &TranscriptData) -> (r: String)
    ensures
        r@ == plain_spec(*data),
{
    if data.utterances.len() == 0 {
        return data.text.clone();
    }
    let ps = paragraphs(&data.utterances);
    render_all(&ps, false)
}

/// Format transcript data as Markdown: a `## Transcript` heading, then the
/// flat text when there are no utterances, else bold speaker labels with
/// the timestamp of each paragraph's first utterance.
pub fn format_transcript_markdown(data: &TranscriptData) -> (r: String)
    ensures
        r@ == markdown_spec(*data),
{
    let mut output = String::from_str("## Transcript\n\n");
    if data.utterances.len() == 0 {
        push_str(&mut output, data.text.as_str());
        return output;
    }
    let ps = paragraphs(&data.utterances);
    let body = render_all(&ps, true);
    push_str(&mut output, body.as_str());
    output
}

/// Two neighbouring paragraphs never have the same speaker, there are no
/// more paragraphs than utterances, and there is at least one when there is
/// an utterance.
pub proof fn lemma_batches_alternate(u: Seq<Utterance>)
    ensures
        forall|k: int|
            0 <= k < batches(u).len() - 1 ==> (#[trigger] batches(u)[k]).0 != batches(u)[k + 1].0,
        batches(u).len() <= u.len(),
        u.len() > 0 ==> batches(u).len() > 0,
    decreases u.len(),
{
    if u.len() > 0 {
        lemma_batches_alternate(u.drop_last());
        let prev = batches(u.drop_last());
        let b = batches(u);
        assert forall|k: int| 0 <= k < b.len() - 1 implies (#[trigger] b[k]).0 != b[k + 1].0 by {
            if k + 1 < prev.len() {
                assert(b[k].0 == prev[k].0 && b[k + 1].0 == prev[k + 1].0);
            } else {
                assert(b[k].0 == prev[k].0);
            }
        }
    }
}

} // verus!
