//! YouTube search results and the query that asks for them.
use crate::outside::{
    decode_html_entities, html_decoded, parse_rfc3339, rfc3339_instant, set_url_query,
    url_with_query,
};
use crate::text::{decimal, push_decimal, push_str, string_of};
use vstd::prelude::*;
use vstd::string::*;

verus! {

/// What a search result is.
#[derive(Clone, Copy, Debug, PartialEq, Eq, Structural)]
pub enum Type {
    VIDEO,
    CHANNEL,
    PLAYLIST,
    NONE,
}

/// The lower case name of a result type.
pub open spec fn kind_label(t: Type) -> Seq<char> {
    match t {
        Type::VIDEO => "video"@,
        Type::CHANNEL => "channel"@,
        Type::PLAYLIST => "playlist"@,
        Type::NONE => "none"@,
    }
}

impl Type {
    /// The lower case name of the type.
    pub fn to_string(&self) -> (r: String)
        ensures
            r@ == kind_label(*self),
    {
        match self {
            Type::VIDEO => String::from_str("video"),
            Type::CHANNEL => String::from_str("channel"),
            Type::PLAYLIST => String::from_str("playlist"),
            Type::NONE => String::from_str("none"),
        }
    }
}

/// A picture of a result, with its size where YouTube gives one.
#[derive(Debug)]
pub struct Thumbnail {
    pub url: String,
    pub width: Option<i32>,
    pub height: Option<i32>,
}

impl Thumbnail {
    /// A copy of the thumbnail.
    pub fn copy(&self) -> (r: Thumbnail)
        ensures
            r.url@ == self.url@,
            r.width == self.width,
            r.height == self.height,
    {
        Thumbnail { url: self.url.clone(), width: self.width, height: self.height }
    }

    /// The address of the picture.
    pub fn url(&self) -> (r: String)
        ensures
            r@ == self.url@,
    {
        self.url.clone()
    }

    /// The width, if known.
    pub fn width(&self) -> (r: Option<i32>)
        ensures
            r == self.width,
    {
        self.width
    }

    /// The height, if known.
    pub fn height(&self) -> (r: Option<i32>)
        ensures
            r == self.height,
    {
        self.height
    }
}

/// The three sizes of thumbnails of a result.
#[derive(Debug)]
pub struct Thumbnails {
    pub default: Thumbnail,
    pub medium: Thumbnail,
    pub high: Thumbnail,
}

/// The kind and id of a result (a video, channel or playlist id).
#[derive(Debug)]
pub struct Id {
    pub kind: String,
    pub id: String,
}

/// The description of a result.
#[derive(Debug)]
pub struct Snippet {
    pub published_at: String,
    pub channel_id: String,
    pub title: String,
    pub description: String,
    pub thumbnails: Thumbnails,
    pub channel_title: String,
}

/// One result of a search.
#[derive(Debug)]
pub struct YoutubeResult {
    pub kind: String,
    pub etag: String,
    pub id: Id,
    pub snippet: Snippet,
}

/// The type that an id's kind names.
pub open spec fn type_of_kind(kind: Seq<char>) -> Type {
    if kind == "youtube#channel"@ {
        Type::CHANNEL
    } else if kind == "youtube#video"@ {
        Type::VIDEO
    } else if kind == "youtube#playlist"@ {
        Type::PLAYLIST
    } else {
        Type::NONE
    }
}

/// The link to a result of the given type and id.
pub open spec fn result_url_text(t: Type, id: Seq<char>) -> Seq<char> {
    match t {
        Type::CHANNEL => "https://www.youtube.com/channel/"@ + id,
        Type::VIDEO => "https://www.youtube.com/watch?v="@ + id,
        Type::PLAYLIST => "https://www.youtube.com/watch?list="@ + id,
        Type::NONE => kind_label(Type::NONE),
    }
}

/// A markdown link to a result: `[title](url)` for a channel,
/// `[title - channel](url)` otherwise.
pub open spec fn hyperlink_text(t: Type, title: Seq<char>, channel: Seq<char>, url: Seq<char>) -> Seq<char> {
    if t == Type::CHANNEL {
        "["@ + title + "]("@ + url + ")"@
    } else {
        "["@ + title + " - "@ + channel + "]("@ + url + ")"@
    }
}

impl YoutubeResult {
    pub open spec fn spec_type(&self) -> Type {
        type_of_kind(self.id.kind@)
    }

    pub open spec fn spec_url(&self) -> Seq<char> {
        result_url_text(self.spec_type(), self.id.id@)
    }

    /// The link to the result.
    pub fn url(&self) -> (r: String)
        ensures
            r@ == self.spec_url(),
    {
        let mut v: Vec<char> = Vec::new();
        match self.result_type() {
            Type::CHANNEL => push_str(&mut v, "https://www.youtube.com/channel/"),
            Type::VIDEO => push_str(&mut v, "https://www.youtube.com/watch?v="),
            Type::PLAYLIST => push_str(&mut v, "https://www.youtube.com/watch?list="),
            Type::NONE => {
                return Type::NONE.to_string();
            },
        }
        push_str(&mut v, self.id.id.as_str());
        string_of(v.as_slice())
    }

    /// The title with its HTML entities decoded.
    pub fn title(&self) -> (r: String)
        ensures
            r@ == html_decoded(self.snippet.title@),
    {
        decode_html_entities(self.snippet.title.as_str())
    }

    /// The link to the channel that published the result.
    pub fn channel_url(&self) -> (r: String)
        ensures
            r@ == "https://www.youtube.com/channel/"@ + self.snippet.channel_id@,
    {
        let mut v: Vec<char> = Vec::new();
        push_str(&mut v, "https://www.youtube.com/channel/");
        push_str(&mut v, self.snippet.channel_id.as_str());
        string_of(v.as_slice())
    }

    /// The channel name with its HTML entities decoded.
    pub fn channel_name(&self) -> (r: String)
        ensures
            r@ == html_decoded(self.snippet.channel_title@),
    {
        decode_html_entities(self.snippet.channel_title.as_str())
    }

    /// The small thumbnail.
    pub fn small_thumbnail(&self) -> (r: Thumbnail)
        ensures
            r.url@ == self.snippet.thumbnails.default.url@,
            r.width == self.snippet.thumbnails.default.width,
            r.height == self.snippet.thumbnails.default.height,
    {
        self.snippet.thumbnails.default.copy()
    }

    /// The medium thumbnail.
    pub fn medium_thumbnail(&self) -> (r: Thumbnail)
        ensures
            r.url@ == self.snippet.thumbnails.medium.url@,
            r.width == self.snippet.thumbnails.medium.width,
            r.height == self.snippet.thumbnails.medium.height,
    {
        self.snippet.thumbnails.medium.copy()
    }

    /// The large thumbnail.
    pub fn thumbnail(&self) -> (r: Thumbnail)
        ensures
            r.url@ == self.snippet.thumbnails.high.url@,
            r.width == self.snippet.thumbnails.high.width,
            r.height == self.snippet.thumbnails.high.height,
    {
        self.snippet.thumbnails.high.copy()
    }

    /// The instant at which the result was published, as Unix seconds and
    /// the nanoseconds since that second. The text must be an RFC 3339 date
    /// (elsewhere the reading fails).
    pub fn time_published(&self) -> (r: (i64, u32))
        requires
            rfc3339_instant(self.snippet.published_at@) is Some,
        ensures
            rfc3339_instant(self.snippet.published_at@) == Some((r.0 as int, r.1 as int)),
    {
        match parse_rfc3339(self.snippet.published_at.as_str()) {
            Some(t) => t,
            None => (0, 0),
        }
    }

    /// The instant at which the result was published, or `None` where the
    /// publishing date is no RFC 3339 date.
    pub fn published_time(&self) -> (r: Option<(i64, u32)>)
        ensures
            r is Some <==> rfc3339_instant(self.snippet.published_at@) is Some,
            r matches Some((secs, nanos)) ==> rfc3339_instant(self.snippet.published_at@) == Some(
                (secs as int, nanos as int),
            ),
    {
        match parse_rfc3339(self.snippet.published_at.as_str()) {
            Some(_) => Some(self.time_published()),
            None => None,
        }
    }

    /// What the result is, by the kind of its id.
    pub fn result_type(&self) -> (r: Type)
        ensures
            r == self.spec_type(),
    {
        let kind = &self.id.kind;
        if *kind == String::from_str("youtube#channel") {
            Type::CHANNEL
        } else if *kind == String::from_str("youtube#video") {
            Type::VIDEO
        } else if *kind == String::from_str("youtube#playlist") {
            Type::PLAYLIST
        } else {
            Type::NONE
        }
    }
}

/// The answer to a search.
#[derive(Debug)]
pub struct YoutubeResponse {
    pub items: Vec<YoutubeResult>,
}

impl YoutubeResponse {
    /// The results, in the order YouTube gave them.
    pub fn results(&self) -> (r: &Vec<YoutubeResult>)
        ensures
            r@ == self.items@,
    {
        &self.items
    }
}

/// Every result that is not a channel (videos, playlists and results of no
/// known type alike) links in the same way, as the channel form of the title
/// followed by ` - ` and the channel name; only a channel leaves the channel
/// name out, and its link is the markdown link `[title](url)`.
pub proof fn lemma_hyperlink_forms(
    t1: Type,
    t2: Type,
    title: Seq<char>,
    channel: Seq<char>,
    other_channel: Seq<char>,
    url: Seq<char>,
)
    ensures
        t1 != Type::CHANNEL && t2 != Type::CHANNEL ==> hyperlink_text(t1, title, channel, url)
            == hyperlink_text(t2, title, channel, url),
        t1 != Type::CHANNEL ==> hyperlink_text(t1, title, channel, url) == hyperlink_text(
            Type::CHANNEL,
            title + " - "@ + channel,
            other_channel,
            url,
        ),
        hyperlink_text(Type::CHANNEL, title, channel, url) == hyperlink_text(
            Type::CHANNEL,
            title,
            other_channel,
            url,
        ),
        hyperlink_text(Type::CHANNEL, title, channel, url) == "["@ + title + "]("@ + url + ")"@,
{
    assert("["@ + (title + " - "@ + channel) + "]("@ + url + ")"@ =~= "["@ + title + " - "@ + channel
        + "]("@ + url + ")"@);
}

/// The markdown link of a result, from its decoded title and channel name.
pub fn format_hyperlink(result_type: Type, title: &str, channel: &str, url: &str) -> (r: String)
    ensures
        r@ == hyperlink_text(result_type, title@, channel@, url@),
{
    let mut v: Vec<char> = Vec::new();
    push_str(&mut v, "[");
    push_str(&mut v, title);
    if result_type != Type::CHANNEL {
        push_str(&mut v, " - ");
        push_str(&mut v, channel);
    }
    push_str(&mut v, "](");
    push_str(&mut v, url);
    push_str(&mut v, ")");
    string_of(v.as_slice())
}

/// The markdown link of a result: its decoded title, the decoded channel name
/// unless the result is a channel, and its link.
pub fn hyperlink_result(result: &YoutubeResult) -> (r: String)
    ensures
        r@ == hyperlink_text(
            result.spec_type(),
            html_decoded(result.snippet.title@),
            html_decoded(result.snippet.channel_title@),
            result.spec_url(),
        ),
{
    let t = result.result_type();
    let title = result.title();
    let channel = result.channel_name();
    let url = result.url();
    format_hyperlink(t, title.as_str(), channel.as_str(), url.as_str())
}

/// A search that is being set up: the API key, how many results, which type
/// of result, and extra query parameters.
pub struct YoutubeSearch {
    api_key: String,
    amount: Option<u8>,
    result_type: Type,
    queries: Vec<(String, String)>,
}

/// A search as plain values.
pub struct SearchView {
    pub api_key: Seq<char>,
    pub amount: Option<u8>,
    pub result_type: Type,
    pub queries: Seq<(Seq<char>, Seq<char>)>,
}

pub open spec fn pairs_view(v: Seq<(String, String)>) -> Seq<(Seq<char>, Seq<char>)> {
    v.map_values(|p: (String, String)| (p.0@, p.1@))
}

impl View for YoutubeSearch {
    type V = SearchView;

    closed spec fn view(&self) -> SearchView {
        SearchView {
            api_key: self.api_key@,
            amount: self.amount,
            result_type: self.result_type,
            queries: pairs_view(self.queries@),
        }
    }
}

/// `&name=value` for every extra parameter, in order.
pub open spec fn extra_params(q: Seq<(Seq<char>, Seq<char>)>) -> Seq<char>
    decreases q.len(),
{
    if q.len() == 0 {
        Seq::<char>::empty()
    } else {
        extra_params(q.drop_last()) + "&"@ + q.last().0 + "="@ + q.last().1
    }
}

/// The query string of a search for `term`.
pub open spec fn query_text(s: SearchView, term: Seq<char>) -> Seq<char> {
    "part=snippet"@ + "&q="@ + term
        + (match s.amount {
            Some(a) => "&maxResults="@ + decimal(a as nat),
            None => Seq::<char>::empty(),
        })
        + (if s.result_type == Type::NONE {
            Seq::<char>::empty()
        } else {
            "&type="@ + kind_label(s.result_type)
        })
        + "&key="@ + s.api_key + extra_params(s.queries)
}

/// The endpoint that searches are sent to.
pub open spec fn search_endpoint() -> Seq<char> {
    "https://www.googleapis.com/youtube/v3/search"@
}

impl YoutubeSearch {
    /// A search with the given API key, no amount, no type filter and no extra
    /// parameters.
    pub fn new(api_key: &str) -> (r: YoutubeSearch)
        ensures
            r@.api_key == api_key@,
            r@.amount is None,
            r@.result_type == Type::NONE,
            r@.queries == Seq::<(Seq<char>, Seq<char>)>::empty(),
    {
        let r = YoutubeSearch {
            api_key: String::from_str(api_key),
            amount: None,
            result_type: Type::NONE,
            queries: Vec::new(),
        };
        assert(pairs_view(r.queries@) =~= Seq::<(Seq<char>, Seq<char>)>::empty());
        r
    }

    /// Sets how many results to ask for.
    pub fn set_amount<'a>(&'a mut self, amount: u8) -> (r: &'a mut YoutubeSearch)
        ensures
            (*r)@.amount == Some(amount),
            (*r)@.api_key == old(self)@.api_key,
            (*r)@.result_type == old(self)@.result_type,
            (*r)@.queries == old(self)@.queries,
            *final(self) == *final(r),
    {
        self.amount = Some(amount);
        self
    }

    /// Sets the type of result to ask for.
    pub fn set_filter<'a>(&'a mut self, result_type: Type) -> (r: &'a mut YoutubeSearch)
        ensures
            (*r)@.result_type == result_type,
            (*r)@.api_key == old(self)@.api_key,
            (*r)@.amount == old(self)@.amount,
            (*r)@.queries == old(self)@.queries,
            *final(self) == *final(r),
    {
        self.result_type = result_type;
        self
    }

    /// Adds an extra parameter to the query.
    pub fn add_query<'a>(&'a mut self, query: &str, data: &str) -> (r: &'a mut YoutubeSearch)
        ensures
            (*r)@.queries == old(self)@.queries.push((query@, data@)),
            (*r)@.api_key == old(self)@.api_key,
            (*r)@.amount == old(self)@.amount,
            (*r)@.result_type == old(self)@.result_type,
            *final(self) == *final(r),
    {
        let ghost before = self.queries@;
        self.queries.push((String::from_str(query), String::from_str(data)));
        assert(pairs_view(self.queries@) =~= pairs_view(before).push((query@, data@)));
        self
    }

    /// The query string that searches for `search_term`.
    pub fn _build_query(&self, search_term: &str) -> (r: String)
        ensures
            r@ == query_text(self@, search_term@),
    {
        let mut v: Vec<char> = Vec::new();
        push_str(&mut v, "part=snippet");
        push_str(&mut v, "&q=");
        push_str(&mut v, search_term);
        let ghost a = v@;
        if let Some(amount) = self.amount {
            push_str(&mut v, "&maxResults=");
            push_decimal(&mut v, amount as u64);
        }
        let ghost b = v@;
        if self.result_type != Type::NONE {
            push_str(&mut v, "&type=");
            let name = self.result_type.to_string();
            push_str(&mut v, name.as_str());
        }
        let ghost c = v@;
        push_str(&mut v, "&key=");
        push_str(&mut v, self.api_key.as_str());
        let ghost d = v@;
        let mut i: usize = 0;
        let ghost qs = pairs_view(self.queries@);
        assert(qs.subrange(0, 0) =~= Seq::<(Seq<char>, Seq<char>)>::empty());
        while i < self.queries.len()
            invariant
                i <= self.queries.len(),
                qs == pairs_view(self.queries@),
                v@ == d + extra_params(qs.subrange(0, i as int)),
            decreases self.queries.len() - i,
        {
            let (q, data) = &self.queries[i];
            push_str(&mut v, "&");
            push_str(&mut v, q.as_str());
            push_str(&mut v, "=");
            push_str(&mut v, data.as_str());
            assert(qs.subrange(0, i + 1).drop_last() =~= qs.subrange(0, i as int));
            assert(qs.subrange(0, i + 1).last() == (q@, data@));
            assert(v@ =~= d + extra_params(qs.subrange(0, i + 1)));
            i = i + 1;
        }
        assert(qs.subrange(0, self.queries.len() as int) =~= qs);
        assert(v@ =~= query_text(self@, search_term@));
        string_of(v.as_slice())
    }

    /// The address that searches for `search_term`: the search endpoint with
    /// the query string set by the `url` crate. The endpoint parses, so an
    /// address always comes back.
    pub fn search_url(&self, search_term: &str) -> (r: Option<String>)
        ensures
            r is Some,
            r is Some <==> url_with_query(search_endpoint(), query_text(self@, search_term@)) is Some,
            r matches Some(u) ==> url_with_query(search_endpoint(), query_text(self@, search_term@))
                == Some(u@),
    {
        let query = self._build_query(search_term);
        set_url_query("https://www.googleapis.com/youtube/v3/search", query.as_str())
    }
}

/// The error text of a search whose answer came with `status`: none for 200
/// (OK), otherwise the wrong status code with its number.
pub open spec fn spec_status_failure(status: u16) -> Option<Seq<char>> {
    if status == 200 {
        None
    } else {
        Some("youtube search failed with wrong status code: "@ + decimal(status as nat))
    }
}

/// Whether a search answer with this HTTP status is read on: a status other
/// than 200 (OK) fails the search with its number in the message.
pub fn status_failure(status: u16) -> (r: Option<String>)
    ensures
        match r {
            None => spec_status_failure(status) is None,
            Some(m) => spec_status_failure(status) == Some(m@),
        },
{
    if status == 200 {
        None
    } else {
        let mut v = crate::text::chars_of("youtube search failed with wrong status code: ");
        push_decimal(&mut v, status as u64);
        Some(string_of(v.as_slice()))
    }
}


} // verus!
