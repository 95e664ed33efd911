//! Time stamps written as `hh:mm:ss.ms`, used to cut downloaded media.
pub mod discord_utils;
pub mod ffmpeg;
pub mod guild_manager;
pub mod image_processing;
pub mod music_manager;
pub mod youtube;
pub mod youtubedl;

use crate::text::{
    chars_of, decimal, is_digit, lemma_decimal_digits, lemma_pad2_digits, lemma_parse_digits, lemma_parse_pad2, lemma_split_concat,
    lemma_split_len, lemma_split_whole, pad2, parse_u32, parse_u32_chars, pieces_view, push_decimal,
    push_pad2, split_chars, split_on, string_of, IntErrorKind,
};
use crate::outside::{char_lower, char_upper, random_bool, to_lowercase, to_uppercase};
use vstd::prelude::*;
use vstd::string::*;

verus! {

/// A point in a track: hours, minutes, seconds and milliseconds.
#[derive(Clone, Copy, Debug)]
pub struct Timestamp {
    h: u32,
    m: u32,
    s: u32,
    ms: u32,
}

/// Hours, minutes, seconds, milliseconds.
pub type TimestampView = (u32, u32, u32, u32);

impl View for Timestamp {
    type V = TimestampView;

    closed spec fn view(&self) -> TimestampView {
        (self.h, self.m, self.s, self.ms)
    }
}

/// A time stamp that breaks the range of its fields, with a message.
#[derive(Clone, Debug)]
pub struct TimeFormatError {
    msg: String,
}

impl View for TimeFormatError {
    type V = Seq<char>;

    closed spec fn view(&self) -> Seq<char> {
        self.msg@
    }
}

impl TimeFormatError {
    /// The message of the error.
    pub fn message(&self) -> (r: String)
        ensures
            r@ == self@,
    {
        self.msg.clone()
    }
}

/// Why a time stamp could not be built.
#[derive(Clone, Debug)]
pub enum TimestampError {
    /// A field is out of range, or the text has the wrong number of fields.
    Format(TimeFormatError),
    /// A field is not a decimal `u32`.
    Parse(IntErrorKind),
}

/// What a failure is, as a plain value.
pub enum TimestampFault {
    Format(Seq<char>),
    Parse(IntErrorKind),
}

impl View for TimestampError {
    type V = TimestampFault;

    open spec fn view(&self) -> TimestampFault {
        match self {
            TimestampError::Format(e) => TimestampFault::Format(e@),
            TimestampError::Parse(k) => TimestampFault::Parse(*k),
        }
    }
}

impl TimestampError {
    /// The message the error displays.
    pub fn message(&self) -> (r: String)
        ensures
            r@ == fault_message(self@),
    {
        match self {
            TimestampError::Format(e) => e.message(),
            TimestampError::Parse(k) => k.message(),
        }
    }
}

pub open spec fn fault_message(f: TimestampFault) -> Seq<char> {
    match f {
        TimestampFault::Format(msg) => msg,
        TimestampFault::Parse(k) => k.spec_message(),
    }
}

pub open spec fn result_view(r: Result<Timestamp, TimestampError>) -> Result<TimestampView, TimestampFault> {
    match r {
        Ok(t) => Ok(t@),
        Err(e) => Err(e@),
    }
}

pub open spec fn minutes_message(m: u32) -> Seq<char> {
    "Expected minutes amount below 60, got "@ + decimal(m as nat)
}

pub open spec fn seconds_message(s: u32) -> Seq<char> {
    "Expected seconds amount below 60, got "@ + decimal(s as nat)
}

pub open spec fn millis_message(ms: u32) -> Seq<char> {
    "Expected milliseconds amount below 1000, got "@ + decimal(ms as nat)
}

pub open spec fn argument_count_message() -> Seq<char> {
    "Invalid amount of arguments"@
}

/// The time stamp with the given fields: minutes and seconds up to 60 and
/// milliseconds up to 1000 are accepted, checked in that order.
pub open spec fn spec_from(h: u32, m: u32, s: u32, ms: u32) -> Result<TimestampView, TimestampFault> {
    if m > 60 {
        Err(TimestampFault::Format(minutes_message(m)))
    } else if s > 60 {
        Err(TimestampFault::Format(seconds_message(s)))
    } else if ms > 1000 {
        Err(TimestampFault::Format(millis_message(ms)))
    } else {
        Ok((h, m, s, ms))
    }
}

/// The time stamp `s` seconds and `ms` milliseconds in (below one hour).
pub open spec fn spec_from_secs_with_ms(s: u32, ms: u32) -> Result<TimestampView, TimestampFault> {
    spec_from(0, (s / 60) as u32, (s % 60) as u32, ms)
}

/// The text `hh:mm:ss.ms` of a time stamp, each field with at least two digits.
pub open spec fn timestamp_text(t: TimestampView) -> Seq<char> {
    pad2(t.0 as nat) + seq![':'] + pad2(t.1 as nat) + seq![':'] + pad2(t.2 as nat) + seq!['.']
        + pad2(t.3 as nat)
}

/// Reads every piece as a `u32`, stopping at the first that fails.
pub open spec fn parse_fields(f: Seq<Seq<char>>) -> Result<Seq<u32>, IntErrorKind>
    decreases f.len(),
{
    if f.len() == 0 {
        Ok(Seq::<u32>::empty())
    } else {
        match parse_u32(f[0]) {
            Err(k) => Err(k),
            Ok(v) => match parse_fields(f.drop_first()) {
                Err(k) => Err(k),
                Ok(vs) => Ok(seq![v] + vs),
            },
        }
    }
}

/// The pieces of the text before the milliseconds are taken apart: without a
/// `.`, the `:`-separated pieces; with one, the pieces after the second `.`,
/// then the `:`-separated pieces before the first, then the piece after it.
pub open spec fn clock_pieces(input: Seq<char>) -> Seq<Seq<char>> {
    let p = split_on(input, '.');
    if p.len() == 1 {
        split_on(input, ':')
    } else {
        p.subrange(2, p.len() as int) + split_on(p[0], ':') + seq![p[1]]
    }
}

/// The hours, minutes, seconds and milliseconds written in a time stamp text,
/// before they are checked: missing leading fields are zero.
pub open spec fn clock_values(input: Seq<char>) -> Result<TimestampView, TimestampFault> {
    let with_ms = split_on(input, '.').len() != 1;
    let f = clock_pieces(input);
    if f.len() == 0 || f.len() > (if with_ms { 4int } else { 3int }) {
        Err(TimestampFault::Format(argument_count_message()))
    } else {
        match parse_fields(f) {
            Err(k) => Err(TimestampFault::Parse(k)),
            Ok(v) => if with_ms {
                if f.len() == 4 {
                    Ok((v[0], v[1], v[2], v[3]))
                } else if f.len() == 3 {
                    Ok((0u32, v[0], v[1], v[2]))
                } else if f.len() == 2 {
                    Ok((0u32, 0u32, v[0], v[1]))
                } else {
                    Ok((0u32, 0u32, 0u32, v[0]))
                }
            } else {
                if f.len() == 3 {
                    Ok((v[0], v[1], v[2], 0u32))
                } else if f.len() == 2 {
                    Ok((0u32, v[0], v[1], 0u32))
                } else {
                    Ok((0u32, 0u32, v[0], 0u32))
                }
            },
        }
    }
}

/// The seconds that a text's fields add up to.
pub open spec fn clock_total(t: TimestampView) -> int {
    t.0 * 3600 + t.1 * 60 + t.2
}

/// The texts on which reading a time stamp does not panic: their fields, when
/// they read, add up to less than an hour.
pub open spec fn from_string_defined(input: Seq<char>) -> bool {
    match clock_values(input) {
        Ok(t) => clock_total(t) < 3600,
        Err(_) => true,
    }
}

/// The time stamp that a text gives.
pub open spec fn spec_from_string(input: Seq<char>) -> Result<TimestampView, TimestampFault> {
    match clock_values(input) {
        Err(e) => Err(e),
        Ok(t) => spec_from_secs_with_ms(clock_total(t) as u32, t.3),
    }
}

fn format_error(prefix: &str, n: u32) -> (e: TimestampError)
    ensures
        e@ == TimestampFault::Format(prefix@ + decimal(n as nat)),
{
    let mut v = chars_of(prefix);
    push_decimal(&mut v, n as u64);
    TimestampError::Format(TimeFormatError { msg: string_of(v.as_slice()) })
}

fn copy_chars(v: &Vec<char>) -> (r: Vec<char>)
    ensures
        r@ == v@,
{
    let mut r: Vec<char> = Vec::new();
    let mut i: usize = 0;
    while i < v.len()
        invariant
            i <= v.len(),
            r@ == v@.subrange(0, i as int),
        decreases v.len() - i,
    {
        r.push(v[i]);
        i = i + 1;
    }
    assert(r@ == v@);
    r
}

pub open spec fn prepend_values(vs: Seq<u32>, r: Result<Seq<u32>, IntErrorKind>) -> Result<Seq<u32>, IntErrorKind> {
    match r {
        Err(k) => Err(k),
        Ok(w) => Ok(vs + w),
    }
}

fn parse_all(f: &Vec<Vec<char>>) -> (r: Result<Vec<u32>, IntErrorKind>)
    ensures
        match r {
            Ok(v) => parse_fields(pieces_view(f@)) == Ok::<Seq<u32>, IntErrorKind>(v@),
            Err(k) => parse_fields(pieces_view(f@)) == Err::<Seq<u32>, IntErrorKind>(k),
        },
{
    let ghost fv = pieces_view(f@);
    let mut vals: Vec<u32> = Vec::new();
    let mut i: usize = 0;
    assert(fv.subrange(0, fv.len() as int) == fv);
    while i < f.len()
        invariant
            fv == pieces_view(f@),
            i <= f.len(),
            fv.len() == f.len(),
            parse_fields(fv) == prepend_values(vals@, parse_fields(fv.subrange(i as int, fv.len() as int))),
        decreases f.len() - i,
    {
        let ghost rest = fv.subrange(i as int, fv.len() as int);
        assert(rest[0] == f@[i as int]@);
        assert(rest.drop_first() == fv.subrange(i + 1, fv.len() as int));
        match parse_u32_chars(f[i].as_slice()) {
            Err(k) => {
                return Err(k);
            },
            Ok(v) => {
                let ghost before = vals@;
                vals.push(v);
                assert(vals@ == before + seq![v]);
                proof {
                    match parse_fields(fv.subrange(i + 1, fv.len() as int)) {
                        Ok(w) => {
                            assert(before + (seq![v] + w) == (before + seq![v]) + w);
                        },
                        Err(_) => {},
                    }
                }
            },
        }
        i = i + 1;
    }
    assert(fv.subrange(fv.len() as int, fv.len() as int) == Seq::<Seq<char>>::empty());
    assert(vals@ + Seq::<u32>::empty() == vals@);
    Ok(vals)
}

impl Timestamp {
    /// The time stamp with the given fields. Minutes and seconds above 60 and
    /// milliseconds above 1000 are refused, in that order.
    pub fn from(h: u32, m: u32, s: u32, ms: u32) -> (r: Result<Timestamp, TimestampError>)
        ensures
            result_view(r) == spec_from(h, m, s, ms),
    {
        if m > 60 {
            return Err(format_error("Expected minutes amount below 60, got ", m));
        } else if s > 60 {
            return Err(format_error("Expected seconds amount below 60, got ", s));
        } else if ms > 1000 {
            return Err(format_error("Expected milliseconds amount below 1000, got ", ms));
        }
        Ok(Timestamp { h, m, s, ms })
    }

    /// The time stamp `s` seconds and `ms` milliseconds in. Below one hour
    /// the seconds split into minutes and seconds; from one hour on the
    /// arithmetic underflows, which is left out.
    pub fn from_secs_with_ms(s: u32, ms: u32) -> (r: Result<Timestamp, TimestampError>)
        requires
            s < 3600,
        ensures
            result_view(r) == spec_from_secs_with_ms(s, ms),
    {
        let m = s / 60 - s / 3600;
        let h = s / 3600;
        Timestamp::from(h, m, s - (h * 3600 + m * 60), ms)
    }

    /// The time stamp `s` seconds in, without milliseconds.
    pub fn from_secs(s: u32) -> (r: Result<Timestamp, TimestampError>)
        requires
            s < 3600,
        ensures
            result_view(r) == spec_from_secs_with_ms(s, 0),
    {
        Timestamp::from_secs_with_ms(s, 0)
    }

    /// Whether `from_string` is defined on the text: its fields, if they
    /// read, add up to less than an hour.
    pub fn is_below_an_hour(input: &str) -> (b: bool)
        ensures
            b == from_string_defined(input@),
    {
        let chars = chars_of(input);
        match Timestamp::clock_values_of(&chars) {
            Ok((h, m, s, _)) => (h as u64) * 3600 + (m as u64) * 60 + (s as u64) < 3600,
            Err(_) => true,
        }
    }

    fn clock_values_of(chars: &Vec<char>) -> (r: Result<(u32, u32, u32, u32), TimestampError>)
        ensures
            match r {
                Ok(t) => clock_values(chars@) == Ok::<TimestampView, TimestampFault>(t),
                Err(e) => clock_values(chars@) == Err::<TimestampView, TimestampFault>(e@),
            },
    {
        let p = split_chars(chars.as_slice(), '.');
        let with_ms = p.len() != 1;
        let mut f: Vec<Vec<char>> = Vec::new();
        if !with_ms {
            f = split_chars(chars.as_slice(), ':');
        } else {
            proof { lemma_split_len(chars@, '.'); }
            let mut i: usize = 2;
            while i < p.len()
                invariant
                    2 <= p.len(),
                    2 <= i <= p.len(),
                    pieces_view(f@) == pieces_view(p@).subrange(2, i as int),
                decreases p.len() - i,
            {
                let ghost before = f@;
                let c = copy_chars(&p[i]);
                f.push(c);
                assert(pieces_view(f@) =~= pieces_view(before).push(c@));
                assert(pieces_view(f@) =~= pieces_view(p@).subrange(2, i + 1));
                i = i + 1;
            }
            let hms = split_chars(p[0].as_slice(), ':');
            let mut j: usize = 0;
            let ghost head = pieces_view(f@);
            while j < hms.len()
                invariant
                    j <= hms.len(),
                    pieces_view(f@) == head + pieces_view(hms@).subrange(0, j as int),
                decreases hms.len() - j,
            {
                let ghost before = f@;
                let c = copy_chars(&hms[j]);
                f.push(c);
                assert(pieces_view(f@) =~= pieces_view(before).push(c@));
                assert(pieces_view(f@) =~= head + pieces_view(hms@).subrange(0, j + 1));
                j = j + 1;
            }
            let ghost before = f@;
            let c = copy_chars(&p[1]);
            f.push(c);
            assert(pieces_view(f@) =~= pieces_view(before).push(c@));
            assert(pieces_view(hms@).subrange(0, hms.len() as int) == pieces_view(hms@));
            assert(pieces_view(f@) =~= clock_pieces(chars@));
        }
        assert(pieces_view(f@) == clock_pieces(chars@));
        let n = f.len();
        if n == 0 || n > (if with_ms { 4 } else { 3 }) {
            proof { reveal_strlit("Invalid amount of arguments"); }
            let e = TimestampError::Format(TimeFormatError { msg: String::from_str("Invalid amount of arguments") });
            return Err(e);
        }
        match parse_all(&f) {
            Err(k) => Err(TimestampError::Parse(k)),
            Ok(v) => {
                proof { lemma_parse_fields_len(pieces_view(f@)); }
                if with_ms {
                    if n == 4 {
                        Ok((v[0], v[1], v[2], v[3]))
                    } else if n == 3 {
                        Ok((0, v[0], v[1], v[2]))
                    } else if n == 2 {
                        Ok((0, 0, v[0], v[1]))
                    } else {
                        Ok((0, 0, 0, v[0]))
                    }
                } else {
                    if n == 3 {
                        Ok((v[0], v[1], v[2], 0))
                    } else if n == 2 {
                        Ok((0, v[0], v[1], 0))
                    } else {
                        Ok((0, 0, v[0], 0))
                    }
                }
            },
        }
    }

    /// Reads `hh:mm:ss.ms`, where leading fields may be left out (`mm:ss`,
    /// `ss`, `ss.ms`, ...); the fields are added up to seconds and split again.
    pub fn from_string(input: &str) -> (r: Result<Timestamp, TimestampError>)
        requires
            from_string_defined(input@),
        ensures
            result_view(r) == spec_from_string(input@),
    {
        let chars = chars_of(input);
        match Timestamp::clock_values_of(&chars) {
            Err(e) => Err(e),
            Ok((h, m, s, ms)) => Timestamp::from_secs_with_ms(h * 3600 + m * 60 + s, ms),
        }
    }

    /// The seconds field.
    pub fn seconds(&self) -> (r: u32)
        ensures
            r == self@.2,
    {
        self.s
    }

    /// The whole time in seconds, milliseconds left out.
    pub fn in_seconds(&self) -> (r: u32)
        requires
            clock_total(self@) <= u32::MAX,
        ensures
            r == clock_total(self@),
    {
        self.s + self.m * 60 + self.h * 3600
    }

    /// The hours field.
    pub fn hours(&self) -> (r: u32)
        ensures
            r == self@.0,
    {
        self.h
    }

    /// The minutes field.
    pub fn minutes(&self) -> (r: u32)
        ensures
            r == self@.1,
    {
        self.m
    }

    /// The milliseconds field.
    pub fn milliseconds(&self) -> (r: u32)
        ensures
            r == self@.3,
    {
        self.ms
    }

    /// `hh:mm:ss.ms`, each field with at least two digits.
    pub fn to_string(&self) -> (r: String)
        ensures
            r@ == timestamp_text(self@),
    {
        let mut v: Vec<char> = Vec::new();
        push_pad2(&mut v, self.h as u64);
        v.push(':');
        push_pad2(&mut v, self.m as u64);
        v.push(':');
        push_pad2(&mut v, self.s as u64);
        v.push('.');
        push_pad2(&mut v, self.ms as u64);
        string_of(v.as_slice())
    }
}

proof fn lemma_parse_fields_len(f: Seq<Seq<char>>)
    ensures
        parse_fields(f) matches Ok(v) ==> v.len() == f.len(),
    decreases f.len(),
{
    if f.len() > 0 {
        lemma_parse_fields_len(f.drop_first());
    }
}


/// Splitting seconds into a time stamp keeps the total: its fields add up to
/// the seconds again, and the milliseconds are kept.
pub proof fn lemma_from_secs_total(s: u32, ms: u32)
    requires
        s < 3600,
        ms <= 1000,
    ensures
        spec_from_secs_with_ms(s, ms) matches Ok(t) && clock_total(t) == s && t.3 == ms && t.0 == 0
            && t.1 < 60 && t.2 < 60,
{
}

proof fn lemma_pad2_free_of(n: nat, c: char)
    requires
        !is_digit(c),
    ensures
        !pad2(n).contains(c),
{
    lemma_pad2_digits(n);
    if pad2(n).contains(c) {
        let j = choose|j: int| 0 <= j < pad2(n).len() && pad2(n)[j] == c;
        assert(is_digit(pad2(n)[j]));
    }
}

/// Reading back the text of a time stamp gives the same time stamp, for every
/// time stamp under an hour whose minutes and seconds are below 60.
pub proof fn lemma_text_roundtrip(t: TimestampView)
    requires
        t.0 == 0,
        t.1 < 60,
        t.2 < 60,
        t.3 <= 1000,
    ensures
        from_string_defined(timestamp_text(t)),
        spec_from_string(timestamp_text(t)) == Ok::<TimestampView, TimestampFault>(t),
{
    let a = pad2(t.0 as nat);
    let m = pad2(t.1 as nat);
    let s = pad2(t.2 as nat);
    let x = pad2(t.3 as nat);
    let am = a + seq![':'] + m;
    let hms = am + seq![':'] + s;
    let text = timestamp_text(t);
    assert(text =~= hms + seq!['.'] + x);
    lemma_pad2_free_of(t.0 as nat, '.');
    lemma_pad2_free_of(t.1 as nat, '.');
    lemma_pad2_free_of(t.2 as nat, '.');
    lemma_pad2_free_of(t.3 as nat, '.');
    lemma_pad2_free_of(t.0 as nat, ':');
    lemma_pad2_free_of(t.1 as nat, ':');
    lemma_pad2_free_of(t.2 as nat, ':');
    assert(!hms.contains('.')) by {
        if hms.contains('.') {
            let j = choose|j: int| 0 <= j < hms.len() && hms[j] == '.';
            if j < a.len() {
                assert(a[j] == '.');
            } else if j == a.len() {
            } else if j < am.len() {
                assert(m[j - a.len() - 1] == '.');
            } else if j == am.len() {
            } else {
                assert(s[j - am.len() - 1] == '.');
            }
        }
    }
    lemma_split_concat(hms, x, '.');
    lemma_split_whole(hms, '.');
    lemma_split_whole(x, '.');
    let p = split_on(text, '.');
    assert(p =~= seq![hms, x]);
    lemma_split_concat(am, s, ':');
    lemma_split_concat(a, m, ':');
    lemma_split_whole(a, ':');
    lemma_split_whole(m, ':');
    lemma_split_whole(s, ':');
    assert(split_on(hms, ':') =~= seq![a, m, s]);
    let f = clock_pieces(text);
    assert(f =~= seq![a, m, s, x]);
    lemma_parse_pad2(t.0 as nat);
    lemma_parse_pad2(t.1 as nat);
    lemma_parse_pad2(t.2 as nat);
    lemma_parse_pad2(t.3 as nat);
    assert(f.drop_first() =~= seq![m, s, x]);
    assert(f.drop_first().drop_first() =~= seq![s, x]);
    assert(f.drop_first().drop_first().drop_first() =~= seq![x]);
    assert(f.drop_first().drop_first().drop_first().drop_first() =~= Seq::<Seq<char>>::empty());
    assert(seq![x].drop_first() =~= Seq::<Seq<char>>::empty());
    assert(seq![s, x].drop_first() =~= seq![x]);
    assert(seq![m, s, x].drop_first() =~= seq![s, x]);
    assert(parse_fields(Seq::<Seq<char>>::empty()) == Ok::<Seq<u32>, IntErrorKind>(Seq::<u32>::empty()));
    assert(seq![t.3] + Seq::<u32>::empty() =~= seq![t.3]);
    assert(parse_fields(seq![x]) == Ok::<Seq<u32>, IntErrorKind>(seq![t.3]));
    assert(seq![t.2] + seq![t.3] =~= seq![t.2, t.3]);
    assert(seq![t.1] + seq![t.2, t.3] =~= seq![t.1, t.2, t.3]);
    assert(seq![t.0] + seq![t.1, t.2, t.3] =~= seq![t.0, t.1, t.2, t.3]);
    assert(parse_fields(seq![s, x]) == Ok::<Seq<u32>, IntErrorKind>(seq![t.2, t.3]));
    assert(parse_fields(seq![m, s, x]) == Ok::<Seq<u32>, IntErrorKind>(seq![t.1, t.2, t.3]));
    assert(parse_fields(f) == Ok::<Seq<u32>, IntErrorKind>(seq![t.0, t.1, t.2, t.3]));
    assert(clock_values(text) == Ok::<TimestampView, TimestampFault>(t));
    let total = clock_total(t);
    assert(total == t.1 * 60 + t.2);
    assert(total / 60 == t.1 && total % 60 == t.2) by (nonlinear_arith)
        requires
            total == t.1 * 60 + t.2,
            0 <= t.2 < 60,
    ;
}


/// Reading `hh:mm:ss` (no milliseconds) gives the time stamp with those
/// hours, minutes and seconds, in that order, and no milliseconds, for every
/// time under an hour whose minutes and seconds are below 60.
pub proof fn lemma_text_roundtrip_without_ms(h: u32, m: u32, s: u32)
    requires
        h * 3600 + m * 60 + s < 3600,
        m < 60,
        s < 60,
    ensures
        from_string_defined(pad2(h as nat) + seq![':'] + pad2(m as nat) + seq![':'] + pad2(s as nat)),
        spec_from_string(pad2(h as nat) + seq![':'] + pad2(m as nat) + seq![':'] + pad2(s as nat))
            == Ok::<TimestampView, TimestampFault>((h, m, s, 0u32)),
{
    let a = pad2(h as nat);
    let b = pad2(m as nat);
    let c = pad2(s as nat);
    let ab = a + seq![':'] + b;
    let text = ab + seq![':'] + c;
    lemma_pad2_free_of(h as nat, '.');
    lemma_pad2_free_of(m as nat, '.');
    lemma_pad2_free_of(s as nat, '.');
    lemma_pad2_free_of(h as nat, ':');
    lemma_pad2_free_of(m as nat, ':');
    lemma_pad2_free_of(s as nat, ':');
    assert(!text.contains('.')) by {
        if text.contains('.') {
            let j = choose|j: int| 0 <= j < text.len() && text[j] == '.';
            if j < a.len() {
                assert(a[j] == '.');
            } else if j == a.len() {
            } else if j < ab.len() {
                assert(b[j - a.len() - 1] == '.');
            } else if j == ab.len() {
            } else {
                assert(c[j - ab.len() - 1] == '.');
            }
        }
    }
    lemma_split_whole(text, '.');
    lemma_split_concat(ab, c, ':');
    lemma_split_concat(a, b, ':');
    lemma_split_whole(a, ':');
    lemma_split_whole(b, ':');
    lemma_split_whole(c, ':');
    assert(split_on(text, ':') =~= seq![a, b, c]);
    let f = clock_pieces(text);
    assert(f =~= seq![a, b, c]);
    lemma_parse_pad2(h as nat);
    lemma_parse_pad2(m as nat);
    lemma_parse_pad2(s as nat);
    assert(f.drop_first() =~= seq![b, c]);
    assert(seq![b, c].drop_first() =~= seq![c]);
    assert(seq![c].drop_first() =~= Seq::<Seq<char>>::empty());
    assert(parse_fields(Seq::<Seq<char>>::empty()) == Ok::<Seq<u32>, IntErrorKind>(Seq::<u32>::empty()));
    assert(seq![s] + Seq::<u32>::empty() =~= seq![s]);
    assert(parse_fields(seq![c]) == Ok::<Seq<u32>, IntErrorKind>(seq![s]));
    assert(seq![m] + seq![s] =~= seq![m, s]);
    assert(parse_fields(seq![b, c]) == Ok::<Seq<u32>, IntErrorKind>(seq![m, s]));
    assert(seq![h] + seq![m, s] =~= seq![h, m, s]);
    assert(parse_fields(f) == Ok::<Seq<u32>, IntErrorKind>(seq![h, m, s]));
    assert(clock_values(text) == Ok::<TimestampView, TimestampFault>((h, m, s, 0u32)));
    let total = clock_total((h, m, s, 0u32));
    assert(h == 0);
    assert(total == m * 60 + s);
    assert(total / 60 == m && total % 60 == s) by (nonlinear_arith)
        requires
            total == m * 60 + s,
            0 <= s < 60,
    ;
}

proof fn lemma_parse_cons(a: Seq<char>, rest: Seq<Seq<char>>, x: u32, vs: Seq<u32>)
    requires
        parse_u32(a) == Ok::<u32, IntErrorKind>(x),
        parse_fields(rest) == Ok::<Seq<u32>, IntErrorKind>(vs),
    ensures
        parse_fields(seq![a] + rest) == Ok::<Seq<u32>, IntErrorKind>(seq![x] + vs),
{
    assert((seq![a] + rest).drop_first() =~= rest);
    assert((seq![a] + rest)[0] == a);
}

proof fn lemma_parse_none()
    ensures
        parse_fields(Seq::<Seq<char>>::empty()) == Ok::<Seq<u32>, IntErrorKind>(Seq::<u32>::empty()),
{
}

/// Neither `:` nor `.` occurs in the two-digit text of a number.
proof fn lemma_pad2_plain(n: nat)
    ensures
        !pad2(n).contains(':'),
        !pad2(n).contains('.'),
{
    lemma_pad2_free_of(n, ':');
    lemma_pad2_free_of(n, '.');
}

/// Joining two texts free of `c` with `c` between gives a text free of `d`
/// when both are free of `d` and `d` is not `c`.
proof fn lemma_join_free(x: Seq<char>, y: Seq<char>, c: char, d: char)
    requires
        !x.contains(d),
        !y.contains(d),
        c != d,
    ensures
        !(x + seq![c] + y).contains(d),
{
    let t = x + seq![c] + y;
    if t.contains(d) {
        let j = choose|j: int| 0 <= j < t.len() && t[j] == d;
        if j < x.len() {
            assert(x[j] == d);
        } else if j == x.len() {
        } else {
            assert(y[j - x.len() - 1] == d);
        }
    }
}

/// Reading `mm:ss` gives the time stamp with those minutes and seconds, in
/// that order, for minutes and seconds below 60.
pub proof fn lemma_text_roundtrip_minutes(m: u32, s: u32)
    requires
        m < 60,
        s < 60,
    ensures
        from_string_defined(pad2(m as nat) + seq![':'] + pad2(s as nat)),
        spec_from_string(pad2(m as nat) + seq![':'] + pad2(s as nat))
            == Ok::<TimestampView, TimestampFault>((0u32, m, s, 0u32)),
{
    let b = pad2(m as nat);
    let c = pad2(s as nat);
    let text = b + seq![':'] + c;
    lemma_pad2_plain(m as nat);
    lemma_pad2_plain(s as nat);
    lemma_join_free(b, c, ':', '.');
    lemma_split_whole(text, '.');
    lemma_split_concat(b, c, ':');
    lemma_split_whole(b, ':');
    lemma_split_whole(c, ':');
    let f = clock_pieces(text);
    assert(f =~= seq![b] + seq![c]);
    lemma_parse_pad2(m as nat);
    lemma_parse_pad2(s as nat);
    lemma_parse_none();
    assert(seq![c] =~= seq![c] + Seq::<Seq<char>>::empty());
    lemma_parse_cons(c, Seq::<Seq<char>>::empty(), s, Seq::<u32>::empty());
    assert(seq![s] + Seq::<u32>::empty() =~= seq![s]);
    lemma_parse_cons(b, seq![c], m, seq![s]);
    assert(clock_values(text) == Ok::<TimestampView, TimestampFault>((0u32, m, s, 0u32)));
    let total = clock_total((0u32, m, s, 0u32));
    assert(total / 60 == m && total % 60 == s) by (nonlinear_arith)
        requires
            total == m * 60 + s,
            0 <= s < 60,
    ;
}

/// Reading a plain count of seconds below an hour splits it into minutes
/// and seconds.
pub proof fn lemma_seconds_text(n: u32)
    requires
        n < 3600,
    ensures
        from_string_defined(decimal(n as nat)),
        spec_from_string(decimal(n as nat)) == Ok::<TimestampView, TimestampFault>(
            (0u32, n / 60, n % 60, 0u32),
        ),
{
    let t = decimal(n as nat);
    lemma_decimal_digits(n as nat);
    assert(!t.contains('.') && !t.contains(':')) by {
        if t.contains('.') {
            let j = choose|j: int| 0 <= j < t.len() && t[j] == '.';
            assert(is_digit(t[j]));
        }
        if t.contains(':') {
            let j = choose|j: int| 0 <= j < t.len() && t[j] == ':';
            assert(is_digit(t[j]));
        }
    }
    lemma_split_whole(t, '.');
    lemma_split_whole(t, ':');
    lemma_parse_digits(t);
    lemma_parse_none();
    assert(seq![t] =~= seq![t] + Seq::<Seq<char>>::empty());
    lemma_parse_cons(t, Seq::<Seq<char>>::empty(), n, Seq::<u32>::empty());
    assert(seq![n] + Seq::<u32>::empty() =~= seq![n]);
    assert(clock_values(t) == Ok::<TimestampView, TimestampFault>((0u32, 0u32, n, 0u32)));
}

/// Reading `ss.ms` gives the time stamp with those seconds and milliseconds.
pub proof fn lemma_text_roundtrip_seconds_ms(s: u32, ms: u32)
    requires
        s < 60,
        ms <= 1000,
    ensures
        from_string_defined(pad2(s as nat) + seq!['.'] + pad2(ms as nat)),
        spec_from_string(pad2(s as nat) + seq!['.'] + pad2(ms as nat))
            == Ok::<TimestampView, TimestampFault>((0u32, 0u32, s, ms)),
{
    let c = pad2(s as nat);
    let x = pad2(ms as nat);
    let text = c + seq!['.'] + x;
    lemma_pad2_plain(s as nat);
    lemma_pad2_plain(ms as nat);
    lemma_split_concat(c, x, '.');
    lemma_split_whole(c, '.');
    lemma_split_whole(x, '.');
    assert(split_on(text, '.') =~= seq![c, x]);
    lemma_split_whole(c, ':');
    let f = clock_pieces(text);
    assert(f =~= seq![c] + seq![x]);
    lemma_parse_pad2(s as nat);
    lemma_parse_pad2(ms as nat);
    lemma_parse_none();
    assert(seq![x] =~= seq![x] + Seq::<Seq<char>>::empty());
    lemma_parse_cons(x, Seq::<Seq<char>>::empty(), ms, Seq::<u32>::empty());
    assert(seq![ms] + Seq::<u32>::empty() =~= seq![ms]);
    lemma_parse_cons(c, seq![x], s, seq![ms]);
    assert(clock_values(text) == Ok::<TimestampView, TimestampFault>((0u32, 0u32, s, ms)));
}

/// Reading `mm:ss.ms` gives the time stamp with those minutes, seconds and
/// milliseconds, in that order.
pub proof fn lemma_text_roundtrip_minutes_ms(m: u32, s: u32, ms: u32)
    requires
        m < 60,
        s < 60,
        ms <= 1000,
    ensures
        from_string_defined(pad2(m as nat) + seq![':'] + pad2(s as nat) + seq!['.'] + pad2(ms as nat)),
        spec_from_string(pad2(m as nat) + seq![':'] + pad2(s as nat) + seq!['.'] + pad2(ms as nat))
            == Ok::<TimestampView, TimestampFault>((0u32, m, s, ms)),
{
    let b = pad2(m as nat);
    let c = pad2(s as nat);
    let x = pad2(ms as nat);
    let bc = b + seq![':'] + c;
    let text = bc + seq!['.'] + x;
    lemma_pad2_plain(m as nat);
    lemma_pad2_plain(s as nat);
    lemma_pad2_plain(ms as nat);
    lemma_join_free(b, c, ':', '.');
    lemma_split_concat(bc, x, '.');
    lemma_split_whole(bc, '.');
    lemma_split_whole(x, '.');
    assert(split_on(text, '.') =~= seq![bc, x]);
    lemma_split_concat(b, c, ':');
    lemma_split_whole(b, ':');
    lemma_split_whole(c, ':');
    let f = clock_pieces(text);
    assert(f =~= seq![b] + (seq![c] + seq![x]));
    lemma_parse_pad2(m as nat);
    lemma_parse_pad2(s as nat);
    lemma_parse_pad2(ms as nat);
    lemma_parse_none();
    assert(seq![x] =~= seq![x] + Seq::<Seq<char>>::empty());
    lemma_parse_cons(x, Seq::<Seq<char>>::empty(), ms, Seq::<u32>::empty());
    assert(seq![ms] + Seq::<u32>::empty() =~= seq![ms]);
    lemma_parse_cons(c, seq![x], s, seq![ms]);
    assert(seq![c] + seq![x] =~= seq![c, x]);
    assert(seq![s] + seq![ms] =~= seq![s, ms]);
    lemma_parse_cons(b, seq![c, x], m, seq![s, ms]);
    assert(seq![m] + seq![s, ms] =~= seq![m, s, ms]);
    assert(clock_values(text) == Ok::<TimestampView, TimestampFault>((0u32, m, s, ms)));
    let total = clock_total((0u32, m, s, ms));
    assert(total / 60 == m && total % 60 == s) by (nonlinear_arith)
        requires
            total == m * 60 + s,
            0 <= s < 60,
    ;
}

/// The upper or the lower case of a character.
pub open spec fn cased(c: char, upper: bool) -> Seq<char> {
    if upper {
        char_upper(c)
    } else {
        char_lower(c)
    }
}

/// The text with each character in the case that the matching choice picks.
pub open spec fn mocked(text: Seq<char>, choices: Seq<bool>) -> Seq<char>
    decreases text.len(),
{
    if text.len() == 0 || choices.len() == 0 {
        Seq::<char>::empty()
    } else {
        mocked(text.drop_last(), choices.drop_last()) + cased(text.last(), choices.last())
    }
}

/// Puts each character of the text in upper case where its choice is `true`
/// and in lower case where it is `false`.
pub fn mock_with(text: &str, choices: &Vec<bool>) -> (r: String)
    requires
        choices.len() == text@.len(),
    ensures
        r@ == mocked(text@, choices@),
{
    let chars = chars_of(text);
    let mut out = String::new();
    let mut i: usize = 0;
    assert(text@.subrange(0, 0) == Seq::<char>::empty());
    while i < chars.len()
        invariant
            chars@ == text@,
            choices.len() == chars.len(),
            i <= chars.len(),
            out@ == mocked(text@.subrange(0, i as int), choices@.subrange(0, i as int)),
        decreases chars.len() - i,
    {
        let c = chars[i];
        let upper = choices[i];
        let piece = if upper { to_uppercase(c) } else { to_lowercase(c) };
        out.append(piece.as_str());
        proof {
            let next = text@.subrange(0, i + 1);
            assert(next.drop_last() == text@.subrange(0, i as int));
            assert(next.last() == c);
            assert(choices@.subrange(0, i + 1).drop_last() == choices@.subrange(0, i as int));
            assert(choices@.subrange(0, i + 1).last() == upper);
        }
        i = i + 1;
    }
    assert(text@.subrange(0, chars.len() as int) == text@);
    assert(choices@.subrange(0, chars.len() as int) == choices@);
    out
}

/// Puts each character of the text in upper or lower case at random.
pub fn mock_text(text: &str) -> (r: String)
    ensures
        exists|choices: Seq<bool>| choices.len() == text@.len() && r@ == mocked(text@, choices),
{
    let n = text.unicode_len();
    let mut choices: Vec<bool> = Vec::new();
    while choices.len() < n
        invariant
            n == text@.len(),
            choices.len() <= n,
        decreases n - choices.len(),
    {
        choices.push(random_bool());
    }
    let r = mock_with(text, &choices);
    assert(choices@.len() == text@.len() && r@ == mocked(text@, choices@));
    r
}

} // verus!
