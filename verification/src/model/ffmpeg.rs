//! The arguments of an `ffmpeg` run that cuts a file to an interval.
use crate::model::{timestamp_text, Timestamp, TimestampView};
use crate::text::{chars_of, string_of};
use vstd::prelude::*;
use vstd::string::*;

verus! {

/// A cut of one input file, from a start to an optional end.
pub struct FFmpeg {
    in_file: String,
    interval: Option<(Timestamp, Option<Timestamp>)>,
}

/// A cut as plain values.
pub struct FFmpegView {
    pub in_file: Seq<char>,
    pub interval: Option<(TimestampView, Option<TimestampView>)>,
}

pub open spec fn interval_view(i: Option<(Timestamp, Option<Timestamp>)>) -> Option<(TimestampView, Option<TimestampView>)> {
    match i {
        None => None,
        Some((start, end)) => Some((start@, match end {
            None => None,
            Some(e) => Some(e@),
        })),
    }
}

impl View for FFmpeg {
    type V = FFmpegView;

    closed spec fn view(&self) -> FFmpegView {
        FFmpegView { in_file: self.in_file@, interval: interval_view(self.interval) }
    }
}

/// An `ffmpeg` run that failed, with its description.
#[derive(Debug)]
pub struct FFmpegError {
    description: String,
}

impl View for FFmpegError {
    type V = Seq<char>;

    closed spec fn view(&self) -> Seq<char> {
        self.description@
    }
}

impl FFmpegError {
    /// An error with the given description.
    pub fn new(description: &str) -> (r: FFmpegError)
        ensures
            r@ == description@,
    {
        FFmpegError { description: String::from_str(description) }
    }

    /// The description of the error.
    pub fn description(&self) -> (r: String)
        ensures
            r@ == self@,
    {
        self.description.clone()
    }
}

/// The command line of a cut: the input, the interval when one is set, the
/// stream copy flag when asked for, and the output last.
pub open spec fn cut_args_spec(f: FFmpegView, out: Seq<char>, copy_streams: bool) -> Seq<Seq<char>> {
    seq!["-i"@, f.in_file] + (match f.interval {
        None => Seq::<Seq<char>>::empty(),
        Some((start, end)) => seq!["-ss"@, timestamp_text(start)] + (match end {
            None => Seq::<Seq<char>>::empty(),
            Some(e) => seq!["-to"@, timestamp_text(e)],
        }),
    }) + (if copy_streams {
        seq!["-c"@, "copy"@]
    } else {
        Seq::<Seq<char>>::empty()
    }) + seq![out]
}

/// The number of arguments of a cut: the input (two), the start (two) when an
/// interval is set, the end (two) when it has one, the stream copy flag (two)
/// when asked for, and the output.
pub open spec fn cut_args_len(f: FFmpegView, copy_streams: bool) -> int {
    3 + (match f.interval {
        None => 0int,
        Some((_, None)) => 2int,
        Some((_, Some(_))) => 4int,
    }) + (if copy_streams { 2int } else { 0int })
}

/// A cut names its input first and its output last. When an interval is
/// set, `-ss` and the start's text follow the input whether or not the
/// interval has an end; `-to` and the end's text follow only when it has one,
/// and nowhere between input and output is there a `-to` otherwise. Without
/// an interval neither flag is passed; `-c copy` comes only when asked for.
pub proof fn lemma_cut_args_shape(f: FFmpegView, out: Seq<char>, copy_streams: bool)
    ensures
        cut_args_spec(f, out, copy_streams).len() == cut_args_len(f, copy_streams),
        cut_args_spec(f, out, copy_streams)[0] == "-i"@,
        cut_args_spec(f, out, copy_streams)[1] == f.in_file,
        cut_args_spec(f, out, copy_streams).last() == out,
        f.interval matches Some((start, _)) ==> cut_args_spec(f, out, copy_streams)[2] == "-ss"@
            && cut_args_spec(f, out, copy_streams)[3] == timestamp_text(start),
        f.interval matches Some((_, Some(end))) ==> cut_args_spec(f, out, copy_streams)[4] == "-to"@
            && cut_args_spec(f, out, copy_streams)[5] == timestamp_text(end),
        forall|i: int|
            2 <= i < cut_args_len(f, copy_streams) - 1 ==> ((#[trigger] cut_args_spec(f, out, copy_streams)[i])
                == "-to"@ <==> (i == 4 && f.interval matches Some((_, Some(_))))),
        forall|i: int|
            2 <= i < cut_args_len(f, copy_streams) - 1 ==> ((#[trigger] cut_args_spec(f, out, copy_streams)[i])
                == "-ss"@ <==> (i == 2 && f.interval is Some)),
        copy_streams ==> cut_args_spec(f, out, copy_streams)[cut_args_len(f, copy_streams) - 3] == "-c"@
            && cut_args_spec(f, out, copy_streams)[cut_args_len(f, copy_streams) - 2] == "copy"@,
{
    reveal_strlit("-i");
    reveal_strlit("-ss");
    reveal_strlit("-to");
    reveal_strlit("-c");
    reveal_strlit("copy");
    let a = cut_args_spec(f, out, copy_streams);
    let mid = match f.interval {
        None => Seq::<Seq<char>>::empty(),
        Some((start, end)) => seq!["-ss"@, timestamp_text(start)] + (match end {
            None => Seq::<Seq<char>>::empty(),
            Some(e) => seq!["-to"@, timestamp_text(e)],
        }),
    };
    let cp = if copy_streams {
        seq!["-c"@, "copy"@]
    } else {
        Seq::<Seq<char>>::empty()
    };
    assert(a == seq!["-i"@, f.in_file] + mid + cp + seq![out]);
    assert(a.len() == cut_args_len(f, copy_streams));
    assert("-ss"@ != "-to"@) by {
        assert("-ss"@[1] != "-to"@[1]);
    }
    assert("-to"@[0] == '-' && "-ss"@[0] == '-');
    match f.interval {
        None => {},
        Some((start, end)) => {
            lemma_stamp_text_starts_with_digit(start);
            match end {
                None => {},
                Some(e) => {
                    lemma_stamp_text_starts_with_digit(e);
                },
            }
        },
    }
    assert forall|i: int| 2 <= i < cut_args_len(f, copy_streams) - 1 implies ((#[trigger] a[i]) == "-to"@ <==> (
    i == 4 && f.interval matches Some((_, Some(_))))) && (a[i] == "-ss"@ <==> (i == 2 && f.interval is Some)) by {
        if i - 2 < mid.len() {
            assert(a[i] == mid[i - 2]);
            match f.interval {
                None => {},
                Some((start, end)) => {
                    if i == 3 {
                        assert(a[i] == timestamp_text(start));
                        assert(a[i][0] != "-to"@[0]);
                        assert(a[i][0] != "-ss"@[0]);
                    }
                    match end {
                        None => {},
                        Some(e) => {
                            if i == 5 {
                                assert(a[i] == timestamp_text(e));
                                assert(a[i][0] != "-to"@[0]);
                                assert(a[i][0] != "-ss"@[0]);
                            }
                        },
                    }
                },
            }
        } else {
            assert(copy_streams);
            assert(a[i] == cp[i - 2 - mid.len()]);
            assert("-c"@ != "-to"@ && "-c"@ != "-ss"@) by {
                assert("-c"@.len() != "-to"@.len());
            }
            assert("copy"@ != "-to"@ && "copy"@ != "-ss"@) by {
                assert("copy"@.len() != "-to"@.len());
            }
        }
    }
}

/// The text of a time stamp starts with a digit.
proof fn lemma_stamp_text_starts_with_digit(t: TimestampView)
    ensures
        timestamp_text(t).len() > 0,
        crate::text::is_digit(timestamp_text(t)[0]),
{
    crate::text::lemma_pad2_digits(t.0 as nat);
    assert(timestamp_text(t)[0] == crate::text::pad2(t.0 as nat)[0]);
}

pub open spec fn strings_view(v: Seq<String>) -> Seq<Seq<char>> {
    v.map_values(|s: String| s@)
}

impl FFmpeg {
    /// A cut of the file at `in_file`, with no interval set.
    pub fn new(in_file: &str) -> (r: FFmpeg)
        ensures
            r@.in_file == in_file@,
            r@.interval is None,
    {
        FFmpeg { in_file: String::from_str(in_file), interval: None }
    }

    /// Sets the interval to cut out.
    pub fn set_interval<'a>(&'a mut self, start: Timestamp, end: Option<Timestamp>) -> (r: &'a mut FFmpeg)
        ensures
            (*r)@.in_file == old(self)@.in_file,
            (*r)@.interval == interval_view(Some((start, end))),
            *final(self) == *final(r),
    {
        self.interval = Some((start, end));
        self
    }

    /// The arguments that `ffmpeg` is run with to cut the file into `out_path`.
    pub fn cut_args(&self, out_path: &str, copy_streams: bool) -> (r: Vec<String>)
        ensures
            strings_view(r@) == cut_args_spec(self@, out_path@, copy_streams),
    {
        let mut args: Vec<String> = Vec::new();
        args.push(String::from_str("-i"));
        args.push(self.in_file.clone());
        let ghost a = strings_view(args@);
        assert(a =~= seq!["-i"@, self.in_file@]);
        match &self.interval {
            None => {},
            Some((start, end)) => {
                args.push(String::from_str("-ss"));
                args.push(start.to_string());
                match end {
                    None => {},
                    Some(e) => {
                        args.push(String::from_str("-to"));
                        args.push(e.to_string());
                    },
                }
            },
        }
        let ghost b = strings_view(args@);
        if copy_streams {
            args.push(String::from_str("-c"));
            args.push(String::from_str("copy"));
        }
        let ghost c = strings_view(args@);
        args.push(String::from_str(out_path));
        assert(strings_view(args@) =~= cut_args_spec(self@, out_path@, copy_streams));
        args
    }
}

} // verus!
