//! The decisions of a youtube-dl download: its arguments, where the file goes
//! and how it is sent back.
use crate::model::{Timestamp, TimestampView};
use crate::text::{chars_of, decimal, push_decimal, push_str, string_of};
use vstd::prelude::*;
use vstd::string::*;

verus! {

/// Files up to this size are sent to Discord directly.
pub const MAX_DISCORD_FILE_SIZE: u64 = 8_000_000;

/// Files from this size on are refused.
pub const MAX_FILE_SIZE: u64 = 200_000_000;

/// Where a downloaded file goes.
#[derive(Clone, Copy, Debug, PartialEq, Eq, Structural)]
pub enum UploadTarget {
    /// Sent to the channel as an attachment.
    Discord,
    /// Uploaded to transfer.sh, and the link sent.
    TransferSh,
    /// Refused as too large.
    TooLarge,
}

/// Below 8 MB to Discord, below 200 MB to transfer.sh, refused otherwise.
pub open spec fn spec_upload_target(size: u64) -> UploadTarget {
    if size < MAX_FILE_SIZE && size < MAX_DISCORD_FILE_SIZE {
        UploadTarget::Discord
    } else if size < MAX_FILE_SIZE {
        UploadTarget::TransferSh
    } else {
        UploadTarget::TooLarge
    }
}

/// Where a file of `size` bytes goes.
pub fn upload_target(size: u64) -> (r: UploadTarget)
    ensures
        r == spec_upload_target(size),
{
    if size < MAX_FILE_SIZE && size < MAX_DISCORD_FILE_SIZE {
        UploadTarget::Discord
    } else if size < MAX_FILE_SIZE {
        UploadTarget::TransferSh
    } else {
        UploadTarget::TooLarge
    }
}

/// The message for a file that is too large, with the limit in megabytes.
pub fn too_large_message() -> (r: String)
    ensures
        r@ == "Your download was larger than "@ + decimal((MAX_FILE_SIZE / 1_000_000) as nat) + "mb"@,
{
    let mut v = chars_of("Your download was larger than ");
    push_decimal(&mut v, MAX_FILE_SIZE / 1_000_000);
    push_str(&mut v, "mb");
    string_of(v.as_slice())
}

/// The name of the cut file: `cut_file.` and the extension, with `mkv`
/// replaced by `mp4` because Discord does not embed mkv files.
pub open spec fn spec_cut_file_name(ext: Seq<char>) -> Seq<char> {
    "cut_file."@ + (if ext == "mkv"@ { "mp4"@ } else { ext })
}

/// The name of the cut file for a download with the given extension.
pub fn cut_file_name(ext: &str) -> (r: String)
    ensures
        r@ == spec_cut_file_name(ext@),
{
    let mut v = chars_of("cut_file.");
    if String::from_str(ext) == String::from_str("mkv") {
        push_str(&mut v, "mp4");
    } else {
        push_str(&mut v, ext);
    }
    string_of(v.as_slice())
}

/// The directories, below the bot's own, that a user's download goes to:
/// `tmp`, `ytd` and the user's id.
pub fn download_dir_parts(author_id: u64) -> (r: Vec<String>)
    ensures
        r@.len() == 3,
        r@[0]@ == "tmp"@,
        r@[1]@ == "ytd"@,
        r@[2]@ == decimal(author_id as nat),
{
    let mut id: Vec<char> = Vec::new();
    push_decimal(&mut id, author_id);
    let mut r: Vec<String> = Vec::new();
    r.push(String::from_str("tmp"));
    r.push(String::from_str("ytd"));
    r.push(string_of(id.as_slice()));
    r
}

/// A youtube-dl flag with an optional value.
pub type YtdlArg = (String, Option<String>);

pub open spec fn arg_view(a: YtdlArg) -> (Seq<char>, Option<Seq<char>>) {
    (a.0@, match a.1 {
        Some(v) => Some(v@),
        None => None,
    })
}

pub open spec fn args_view(v: Seq<YtdlArg>) -> Seq<(Seq<char>, Option<Seq<char>>)> {
    v.map_values(|a: YtdlArg| arg_view(a))
}

/// The flags that make a download an mp3 with the thumbnail as cover art.
pub open spec fn spec_audio_only_args() -> Seq<(Seq<char>, Option<Seq<char>>)> {
    seq![
        ("--extract-audio"@, None),
        ("--audio-format"@, Some("mp3"@)),
        ("--embed-thumbnail"@, None),
    ]
}

/// The flags that every download gets: an age limit that passes age checks,
/// a short output name, and the metadata; with the cookie file when there is one.
pub open spec fn spec_default_args(cookies: Option<Seq<char>>) -> Seq<(Seq<char>, Option<Seq<char>>)> {
    seq![
        ("--age-limit"@, Some("69"@)),
        ("--output"@, Some("%(title).90s.%(ext)s"@)),
        ("--add-metadata"@, None),
    ] + match cookies {
        Some(path) => seq![("--cookies"@, Some(path))],
        None => Seq::empty(),
    }
}

fn flag(name: &str) -> (r: YtdlArg)
    ensures
        arg_view(r) == (name@, None::<Seq<char>>),
{
    (String::from_str(name), None)
}

fn flag_with(name: &str, value: &str) -> (r: YtdlArg)
    ensures
        arg_view(r) == (name@, Some(value@)),
{
    (String::from_str(name), Some(String::from_str(value)))
}

/// The flags that make a download an mp3.
pub fn audio_only_args() -> (r: Vec<YtdlArg>)
    ensures
        args_view(r@) == spec_audio_only_args(),
{
    let mut v: Vec<YtdlArg> = Vec::new();
    v.push(flag("--extract-audio"));
    v.push(flag_with("--audio-format", "mp3"));
    v.push(flag("--embed-thumbnail"));
    assert(args_view(v@) =~= spec_audio_only_args());
    v
}

/// The flags that every download gets; `cookies` is the path of the cookie
/// file where one exists.
pub fn default_args(cookies: Option<&str>) -> (r: Vec<YtdlArg>)
    ensures
        args_view(r@) == spec_default_args(match cookies {
            Some(c) => Some(c@),
            None => None,
        }),
{
    let mut v: Vec<YtdlArg> = Vec::new();
    v.push(flag_with("--age-limit", "69"));
    v.push(flag_with("--output", "%(title).90s.%(ext)s"));
    v.push(flag("--add-metadata"));
    if let Some(path) = cookies {
        v.push(flag_with("--cookies", path));
    }
    assert(args_view(v@) =~= spec_default_args(match cookies {
        Some(c) => Some(c@),
        None => None,
    }));
    v
}

fn copy_arg(a: &YtdlArg) -> (r: YtdlArg)
    ensures
        arg_view(r) == arg_view(*a),
{
    let value = match &a.1 {
        Some(v) => Some(v.clone()),
        None => None,
    };
    (a.0.clone(), value)
}

/// Appends copies of `more` to `v`, in order.
fn append_args(v: &mut Vec<YtdlArg>, more: &Vec<YtdlArg>)
    ensures
        args_view(final(v)@) == args_view(old(v)@) + args_view(more@),
{
    let ghost start = args_view(v@);
    let mut i: usize = 0;
    while i < more.len()
        invariant
            i <= more.len(),
            args_view(v@) == start + args_view(more@).subrange(0, i as int),
        decreases more.len() - i,
    {
        let ghost before = v@;
        let a = copy_arg(&more[i]);
        v.push(a);
        assert(args_view(v@) =~= args_view(before).push(arg_view(more@[i as int])));
        assert(args_view(more@).subrange(0, i + 1) =~= args_view(more@).subrange(0, i as int).push(
            arg_view(more@[i as int]),
        ));
        i = i + 1;
    }
    assert(args_view(more@).subrange(0, more.len() as int) =~= args_view(more@));
}

/// A time stamp, taken by its view.
pub open spec fn stamp_view(t: Option<Timestamp>) -> Option<TimestampView> {
    match t {
        Some(x) => Some(x@),
        None => None,
    }
}

/// What a download is run with: the user it is for, the youtube-dl flags in
/// the order they were added, and where the file is cut afterwards.
pub struct YtdlView {
    pub author_id: u64,
    pub args: Seq<(Seq<char>, Option<Seq<char>>)>,
    pub start: Option<TimestampView>,
    pub end: Option<TimestampView>,
}

/// A youtube-dl download for one user, built up step by step.
pub struct YTDL {
    author_id: u64,
    args: Vec<YtdlArg>,
    start: Option<Timestamp>,
    end: Option<Timestamp>,
}

impl View for YTDL {
    type V = YtdlView;

    closed spec fn view(&self) -> YtdlView {
        YtdlView {
            author_id: self.author_id,
            args: args_view(self.args@),
            start: stamp_view(self.start),
            end: stamp_view(self.end),
        }
    }
}

impl YTDL {
    /// A download for the user `author_id`, with no flags and no cut.
    pub fn new(author_id: u64) -> (r: YTDL)
        ensures
            r@.author_id == author_id,
            r@.args == Seq::<(Seq<char>, Option<Seq<char>>)>::empty(),
            r@.start is None,
            r@.end is None,
    {
        let r = YTDL { author_id, args: Vec::new(), start: None, end: None };
        assert(r@.args =~= Seq::<(Seq<char>, Option<Seq<char>>)>::empty());
        r
    }

    /// Adds the flags that make the download an mp3 with the thumbnail as
    /// cover art.
    pub fn set_audio_only<'a>(&'a mut self) -> (r: &'a mut YTDL)
        ensures
            (*r)@.args == old(self)@.args + spec_audio_only_args(),
            (*r)@.author_id == old(self)@.author_id,
            (*r)@.start == old(self)@.start,
            (*r)@.end == old(self)@.end,
            *final(self) == *final(r),
    {
        let more = audio_only_args();
        append_args(&mut self.args, &more);
        self
    }

    /// Sets where the cut starts.
    pub fn set_start<'a>(&'a mut self, stamp: Timestamp) -> (r: &'a mut YTDL)
        ensures
            (*r)@.start == Some(stamp@),
            (*r)@.author_id == old(self)@.author_id,
            (*r)@.args == old(self)@.args,
            (*r)@.end == old(self)@.end,
            *final(self) == *final(r),
    {
        self.start = Some(stamp);
        self
    }

    /// Sets where the cut ends.
    pub fn set_end<'a>(&'a mut self, stamp: Timestamp) -> (r: &'a mut YTDL)
        ensures
            (*r)@.end == Some(stamp@),
            (*r)@.author_id == old(self)@.author_id,
            (*r)@.args == old(self)@.args,
            (*r)@.start == old(self)@.start,
            *final(self) == *final(r),
    {
        self.end = Some(stamp);
        self
    }

    /// Adds the flags every download gets; `cookies` is the path of the
    /// cookie file where one exists.
    pub fn set_defaults<'a>(&'a mut self, cookies: Option<&str>) -> (r: &'a mut YTDL)
        ensures
            (*r)@.args == old(self)@.args + spec_default_args(match cookies {
                Some(c) => Some(c@),
                None => None,
            }),
            (*r)@.author_id == old(self)@.author_id,
            (*r)@.start == old(self)@.start,
            (*r)@.end == old(self)@.end,
            *final(self) == *final(r),
    {
        let more = default_args(cookies);
        append_args(&mut self.args, &more);
        self
    }

    /// Adds one flag.
    pub fn arg<'a>(&'a mut self, arg: YtdlArg) -> (r: &'a mut YTDL)
        ensures
            (*r)@.args == old(self)@.args.push(arg_view(arg)),
            (*r)@.author_id == old(self)@.author_id,
            (*r)@.start == old(self)@.start,
            (*r)@.end == old(self)@.end,
            *final(self) == *final(r),
    {
        let ghost before = self.args@;
        self.args.push(arg);
        assert(args_view(self.args@) =~= args_view(before).push(arg_view(arg)));
        self
    }

    /// Adds the flags of `args`, in order.
    pub fn args<'a>(&'a mut self, args: &Vec<YtdlArg>) -> (r: &'a mut YTDL)
        ensures
            (*r)@.args == old(self)@.args + args_view(args@),
            (*r)@.author_id == old(self)@.author_id,
            (*r)@.start == old(self)@.start,
            (*r)@.end == old(self)@.end,
            *final(self) == *final(r),
    {
        append_args(&mut self.args, args);
        self
    }

    /// The user the download is for.
    pub fn author_id(&self) -> (r: u64)
        ensures
            r == self@.author_id,
    {
        self.author_id
    }

    /// The flags, in the order they were added.
    pub fn arguments(&self) -> (r: &Vec<YtdlArg>)
        ensures
            args_view(r@) == self@.args,
    {
        &self.args
    }

    /// The interval to cut the downloaded file to: from the start, if one was
    /// set, to the end if one was set too; no cut without a start.
    pub fn cut_interval(&self) -> (r: Option<(Timestamp, Option<Timestamp>)>)
        ensures
            match r {
                None => self@.start is None,
                Some((s, e)) => self@.start == Some(s@) && self@.end == stamp_view(e),
            },
    {
        match self.start {
            None => None,
            Some(s) => Some((s, self.end)),
        }
    }
}

/// The download that the youtube-dl command with time stamps starts: the
/// default flags (with the cookie file where one exists), the cut from
/// `start` to `end` where they are given, and the mp3 flags for audio only.
pub fn ytd_with_stamps(
    author_id: u64,
    audio_only: bool,
    start: Option<Timestamp>,
    end: Option<Timestamp>,
    cookies: Option<&str>,
) -> (r: YTDL)
    ensures
        r@.author_id == author_id,
        r@.args == spec_default_args(match cookies {
            Some(c) => Some(c@),
            None => None,
        }) + (if audio_only {
            spec_audio_only_args()
        } else {
            Seq::empty()
        }),
        r@.start == stamp_view(start),
        r@.end == stamp_view(end),
{
    let mut ytdl = YTDL::new(author_id);
    ytdl.set_defaults(cookies);
    if let Some(s) = start {
        ytdl.set_start(s);
    }
    if let Some(e) = end {
        ytdl.set_end(e);
    }
    if audio_only {
        ytdl.set_audio_only();
    }
    proof {
        let d = spec_default_args(match cookies {
            Some(c) => Some(c@),
            None => None,
        });
        assert(Seq::<(Seq<char>, Option<Seq<char>>)>::empty() + d =~= d);
        assert(d + Seq::<(Seq<char>, Option<Seq<char>>)>::empty() =~= d);
    }
    ytdl
}

} // verus!
