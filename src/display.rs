//! How listings and totals show durations and channels.
use vstd::prelude::*;
use crate::index::opt_view;
use crate::text::{push_char, push_str, str_eq};
use crate::transcriber::{digits, pad2, push_digits, tdiv, trem};

verus! {

/// An integer in decimal, with a leading `-` when negative.
pub open spec fn int_text(n: int) -> Seq<char> {
    if n < 0 {
        seq!['-'] + digits((-n) as nat)
    } else {
        digits(n as nat)
    }
}

/// The magnitude of an `i64` and whether it is negative.
fn split_sign(n: i64) -> (r: (u64, bool))
    ensures
        r.1 == (n < 0),
        r.1 ==> r.0 as int == -(n as int),
        !r.1 ==> r.0 as int == n as int,
{
    if n < 0 {
        ((-(n as i128)) as u64, true)
    } else {
        (n as u64, false)
    }
}

fn push_int(out: &mut String, magnitude: u64, negative: bool)
    ensures
        final(out)@ == old(out)@ + int_text(if negative { -(magnitude as int) } else { magnitude as int }),
{
    if negative && magnitude > 0 {
        push_char(out, '-');
        push_digits(out, magnitude);
        assert(final(out)@ =~= old(out)@ + int_text(-(magnitude as int)));
    } else {
        push_digits(out, magnitude);
    }
}

/// `<minutes>:<seconds, two digits>` of a duration in seconds.
pub open spec fn clock_spec(d: int) -> Seq<char> {
    int_text(tdiv(d, 60)) + seq![':'] + pad2(trem(d, 60))
}

/// `<minutes>m <seconds>s` of a duration in seconds.
pub open spec fn words_spec(d: int) -> Seq<char> {
    int_text(tdiv(d, 60)) + seq!['m', ' '] + int_text(trem(d, 60)) + seq!['s']
}

/// `<hours>h <minutes>m` of a total in seconds.
pub open spec fn hours_spec(d: int) -> Seq<char> {
    int_text(tdiv(d, 3600)) + seq!['h', ' '] + int_text(tdiv(trem(d, 3600), 60)) + seq!['m']
}

/// Show a duration in seconds as `m:ss`.
pub fn format_duration_clock(d: i64) -> (r: String)
    ensures
        r@ == clock_spec(d as int),
{
    let (a, negative) = split_sign(d);
    let mins = a / 60;
    let secs = a % 60;
    assert(tdiv(d as int, 60) == if negative { -(mins as int) } else { mins as int });
    assert(trem(d as int, 60) == if negative { -(secs as int) } else { secs as int });
    let mut r = String::new();
    push_int(&mut r, mins, negative);
    push_char(&mut r, ':');
    let ghost before = r@;
    if negative && secs > 0 {
        push_char(&mut r, '-');
        push_digits(&mut r, secs);
        assert(r@ =~= before + pad2(-(secs as int)));
    } else if secs < 10 {
        push_char(&mut r, '0');
        push_digits(&mut r, secs);
        assert(r@ =~= before + pad2(secs as int));
    } else {
        push_digits(&mut r, secs);
    }
    assert(r@ =~= clock_spec(d as int));
    r
}

/// Show a duration in seconds as `Xm Ys`.
pub fn format_duration_words(d: i64) -> (r: String)
    ensures
        r@ == words_spec(d as int),
{
    let (a, negative) = split_sign(d);
    let mins = a / 60;
    let secs = a % 60;
    assert(tdiv(d as int, 60) == if negative { -(mins as int) } else { mins as int });
    assert(trem(d as int, 60) == if negative { -(secs as int) } else { secs as int });
    let mut r = String::new();
    push_int(&mut r, mins, negative);
    push_char(&mut r, 'm');
    push_char(&mut r, ' ');
    push_int(&mut r, secs, negative);
    push_char(&mut r, 's');
    assert(r@ =~= words_spec(d as int));
    r
}

/// Show a total in seconds as `Xh Ym`.
pub fn format_hours_minutes(d: i64) -> (r: String)
    ensures
        r@ == hours_spec(d as int),
{
    let (a, negative) = split_sign(d);
    let hours = a / 3600;
    let mins = (a % 3600) / 60;
    assert(tdiv(d as int, 3600) == if negative { -(hours as int) } else { hours as int });
    assert(trem(d as int, 3600) == if negative { -((a % 3600) as int) } else { (a % 3600) as int });
    assert(tdiv(trem(d as int, 3600), 60) == if negative { -(mins as int) } else { mins as int });
    let mut r = String::new();
    push_int(&mut r, hours, negative);
    push_char(&mut r, 'h');
    push_char(&mut r, ' ');
    push_int(&mut r, mins, negative);
    push_char(&mut r, 'm');
    assert(r@ =~= hours_spec(d as int));
    r
}

/// A channel as listings show it: with its handle in parentheses when the
/// handle is present, not empty, and not the channel name itself.
pub open spec fn channel_display_spec(channel: Seq<char>, handle: Option<Seq<char>>) -> Seq<char> {
    match handle {
        Some(h) => if h != channel && h.len() > 0 {
            channel + seq![' ', '('] + h + seq![')']
        } else {
            channel
        },
        None => channel,
    }
}

pub fn channel_display(channel: &str, handle: Option<&str>) -> (r: String)
    ensures
        r@ == channel_display_spec(channel@, opt_view(handle)),
{
    match handle {
        Some(h) => {
            let same = str_eq(h, channel);
            if !same && h.unicode_len() > 0 {
                let mut r = String::from_str(channel);
                push_char(&mut r, ' ');
                push_char(&mut r, '(');
                push_str(&mut r, h);
                push_char(&mut r, ')');
                assert(r@ =~= channel_display_spec(channel@, opt_view(handle)));
                r
            } else {
                String::from_str(channel)
            }
        },
        None => String::from_str(channel),
    }
}

} // verus!
