//! The texts that describe the song that is playing and the queue after it.
use crate::outside::{format_duration, humantime_text};
use crate::text::{decimal, push_decimal, push_str, string_of};
use vstd::prelude::*;
use vstd::string::*;

verus! {

/// What is known of a track: title, artist, source link, thumbnail, and its
/// duration as seconds and nanoseconds.
pub struct TrackMetadata {
    pub title: Option<String>,
    pub artist: Option<String>,
    pub source_url: Option<String>,
    pub thumbnail: Option<String>,
    pub duration: Option<(u64, u32)>,
}

pub open spec fn or_empty(s: Option<String>) -> Seq<char> {
    match s {
        Some(v) => v@,
        None => Seq::<char>::empty(),
    }
}

/// A markdown link to the song: `[title](source)`, each part empty where
/// unknown.
pub open spec fn spec_hyperlink_song(data: TrackMetadata) -> Seq<char> {
    "["@ + or_empty(data.title) + "]("@ + or_empty(data.source_url) + ")"@
}

/// The markdown link to a song.
pub fn hyperlink_song(data: &TrackMetadata) -> (r: String)
    ensures
        r@ == spec_hyperlink_song(*data),
{
    let mut v: Vec<char> = Vec::new();
    push_str(&mut v, "[");
    if let Some(title) = &data.title {
        push_str(&mut v, title.as_str());
    }
    push_str(&mut v, "](");
    if let Some(link) = &data.source_url {
        push_str(&mut v, link.as_str());
    }
    push_str(&mut v, ")");
    string_of(v.as_slice())
}

/// A duration without its milliseconds part, as humantime shows it;
/// `unknown` for a missing or zero duration.
pub open spec fn spec_duration_format(duration: Option<(u64, u32)>) -> Seq<char> {
    match duration {
        Some((secs, nanos)) => if secs == 0 && nanos == 0 {
            "unknown"@
        } else {
            humantime_text(secs, nanos % 1_000_000)
        },
        None => "unknown"@,
    }
}

/// Shows a duration in words.
pub fn duration_format(duration: Option<(u64, u32)>) -> (r: String)
    requires
        duration matches Some(d) ==> d.1 < 1_000_000_000,
    ensures
        r@ == spec_duration_format(duration),
{
    if let Some((secs, nanos)) = duration {
        if !(secs == 0 && nanos == 0) {
            return format_duration(secs, nanos % 1_000_000);
        }
    }
    String::from_str("unknown")
}

/// The lines `i. title` for the tracks at positions `lo` up to `hi`
/// (excluded) that have a title.
pub open spec fn queue_lines(titles: Seq<Option<Seq<char>>>, lo: nat, hi: nat) -> Seq<char>
    decreases hi,
{
    if hi <= lo {
        Seq::<char>::empty()
    } else {
        let i = (hi - 1) as nat;
        queue_lines(titles, lo, i) + match titles[i as int] {
            Some(t) => decimal(i) + ". "@ + t + "\n"@,
            None => Seq::<char>::empty(),
        }
    }
}

/// The titles of a queue as plain values.
pub open spec fn titles_view(v: Seq<Option<String>>) -> Seq<Option<Seq<char>>> {
    v.map_values(|t: Option<String>| match t {
        Some(s) => Some(s@),
        None => None,
    })
}

/// The upcoming tracks: positions 1 to 5 of the queue (the first is playing),
/// one line each for those with a title.
pub open spec fn spec_upcoming_text(titles: Seq<Option<Seq<char>>>) -> Seq<char> {
    queue_lines(titles, 1, if titles.len() < 6 { titles.len() } else { 6 })
}

/// The list of upcoming tracks, from the titles of the whole queue.
pub fn upcoming_text(titles: &Vec<Option<String>>) -> (r: String)
    ensures
        r@ == spec_upcoming_text(titles_view(titles@)),
{
    let ghost tv = titles_view(titles@);
    let hi: usize = if titles.len() < 6 { titles.len() } else { 6 };
    let mut v: Vec<char> = Vec::new();
    if hi <= 1 {
        assert(queue_lines(tv, 1, hi as nat) == Seq::<char>::empty());
        return String::new();
    }
    let mut i: usize = 1;
    assert(queue_lines(tv, 1, 1) == Seq::<char>::empty());
    while i < hi
        invariant
            1 <= i <= hi,
            hi <= titles.len(),
            hi <= 6,
            tv == titles_view(titles@),
            v@ == queue_lines(tv, 1, i as nat),
        decreases hi - i,
    {
        let ghost before = v@;
        match &titles[i] {
            Some(t) => {
                push_decimal(&mut v, i as u64);
                push_str(&mut v, ". ");
                push_str(&mut v, t.as_str());
                push_str(&mut v, "\n");
                assert(v@ =~= before + (decimal(i as nat) + ". "@ + t@ + "\n"@));
            },
            None => {},
        }
        assert(v@ =~= queue_lines(tv, 1, (i + 1) as nat));
        i = i + 1;
    }
    string_of(v.as_slice())
}


/// Whether nobody but bots is left in the voice channel, so the bot leaves.
pub fn no_user_connected(member_is_bot: &Vec<bool>) -> (r: bool)
    ensures
        r == (forall|i: int| 0 <= i < member_is_bot@.len() ==> member_is_bot@[i]),
{
    let mut i: usize = 0;
    while i < member_is_bot.len()
        invariant
            i <= member_is_bot.len(),
            forall|j: int| 0 <= j < i ==> member_is_bot@[j],
        decreases member_is_bot.len() - i,
    {
        if !member_is_bot[i] {
            return false;
        }
        i = i + 1;
    }
    true
}

/// The most times a song can be looped.
pub const MAX_LOOPS: usize = 10;

/// Whether a song may be looped that many times.
pub fn loop_times_allowed(times: usize) -> (r: bool)
    ensures
        r == (times <= 10),
{
    times <= MAX_LOOPS
}

} // verus!
