//! The calls this library makes into other crates and into std, each with the
//! contract that the library relies on.
use vstd::prelude::*;

verus! {

/// What `html_escape::decode_html_entities` makes of a text.
pub uninterp spec fn html_decoded(text: Seq<char>) -> Seq<char>;

/// Calls `html_escape::decode_html_entities`. Its result depends on the text
/// alone; a text without `&` holds no entity and comes back unchanged (the
/// function returns the input borrowed when its search for `&` finds none).
#[verifier::external_body]
pub(crate) fn decode_html_entities(text: &str) -> (r: String)
    ensures
        r@ == html_decoded(text@),
        !text@.contains('&') ==> r@ == text@,
{
    html_escape::decode_html_entities(text).into_owned()
}

/// What `url::Url::parse(base)`, then `set_query(Some(query))`, then
/// `to_string()` give; `None` where `base` does not parse.
pub uninterp spec fn url_with_query(base: Seq<char>, query: Seq<char>) -> Option<Seq<char>>;

/// Parses `base` with `url::Url::parse`, sets its query with `set_query` and
/// serialises it with `to_string`. The result, encoding included, is named
/// and not stated; stated is that the YouTube search endpoint, an absolute
/// `https` address, parses (and `set_query` cannot fail).
#[verifier::external_body]
pub(crate) fn set_url_query(base: &str, query: &str) -> (r: Option<String>)
    ensures
        r is Some <==> url_with_query(base@, query@) is Some,
        r matches Some(s) ==> url_with_query(base@, query@) == Some(s@),
        base@ == "https://www.googleapis.com/youtube/v3/search"@ ==> r is Some,
{
    match url::Url::parse(base) {
        Ok(mut url) => {
            url.set_query(Some(query));
            Some(url.to_string())
        },
        Err(_) => None,
    }
}

/// The instant that `chrono::DateTime::parse_from_rfc3339` reads from a text,
/// as Unix seconds and the nanoseconds since that second; `None` where the
/// text is no RFC 3339 date and time.
pub uninterp spec fn rfc3339_instant(text: Seq<char>) -> Option<(int, int)>;

/// Calls `chrono::DateTime::parse_from_rfc3339` and takes `timestamp()` and
/// `timestamp_subsec_nanos()` of the result. Which texts parse, and to what,
/// is named and not stated.
#[verifier::external_body]
pub(crate) fn parse_rfc3339(text: &str) -> (r: Option<(i64, u32)>)
    ensures
        r is Some <==> rfc3339_instant(text@) is Some,
        r matches Some((secs, nanos)) ==> rfc3339_instant(text@) == Some((secs as int, nanos as int)),
{
    match chrono::DateTime::parse_from_rfc3339(text) {
        Ok(date) => Some((date.timestamp(), date.timestamp_subsec_nanos())),
        Err(_) => None,
    }
}

/// The characters that `char::to_uppercase` yields for `c`.
pub uninterp spec fn char_upper(c: char) -> Seq<char>;

/// The characters that `char::to_lowercase` yields for `c`.
pub uninterp spec fn char_lower(c: char) -> Seq<char>;

/// Collects `char::to_uppercase`, which yields one or more characters (the
/// character itself where it has no upper case mapping).
#[verifier::external_body]
pub(crate) fn to_uppercase(c: char) -> (r: String)
    ensures
        r@ == char_upper(c),
        r@.len() >= 1,
{
    c.to_uppercase().collect::<String>()
}

/// Collects `char::to_lowercase`, which yields one or more characters (the
/// character itself where it has no lower case mapping).
#[verifier::external_body]
pub(crate) fn to_lowercase(c: char) -> (r: String)
    ensures
        r@ == char_lower(c),
        r@.len() >= 1,
{
    c.to_lowercase().collect::<String>()
}

/// Draws a random `bool` from `rand::thread_rng()`; nothing is known of it.
#[verifier::external_body]
pub(crate) fn random_bool() -> bool {
    rand::Rng::gen(&mut rand::thread_rng())
}


/// What `humantime::format_duration` shows for a duration of `secs` seconds
/// and `nanos` nanoseconds (`2h 37m`, `32ms`, ...).
pub uninterp spec fn humantime_text(secs: u64, nanos: u32) -> Seq<char>;

/// Formats the duration with `humantime::format_duration`. The text is named;
/// of it only the zero duration's `0s` is stated.
#[verifier::external_body]
pub(crate) fn format_duration(secs: u64, nanos: u32) -> (r: String)
    requires
        nanos < 1_000_000_000,
    ensures
        r@ == humantime_text(secs, nanos),
        secs == 0 && nanos == 0 ==> r@ == "0s"@,
{
    humantime::format_duration(std::time::Duration::new(secs, nanos)).to_string()
}

/// What `str::to_lowercase` makes of a text.
pub uninterp spec fn str_lower(s: Seq<char>) -> Seq<char>;

/// Calls `str::to_lowercase`. The Unicode mapping is named; of it only what
/// std documents for ASCII is stated: an ASCII text comes back with `A` to
/// `Z` lowered and every other character as it was.
#[verifier::external_body]
pub(crate) fn lowercase(s: &str) -> (r: String)
    ensures
        r@ == str_lower(s@),
        crate::text::all_ascii(s@) ==> r@ == crate::text::ascii_lowered(s@),
{
    s.to_lowercase()
}


/// Whether the regular expression `pattern` matches somewhere in `text`, as
/// `regex::Regex::is_match` finds; `None` where `pattern` does not compile.
pub uninterp spec fn regex_finds(pattern: Seq<char>, text: Seq<char>) -> Option<bool>;

/// Compiles `pattern` with `regex::Regex::new` and calls `is_match`. Which
/// texts match is named and not stated.
#[verifier::external_body]
pub(crate) fn regex_is_match(pattern: &str, text: &str) -> (r: Option<bool>)
    ensures
        r == regex_finds(pattern@, text@),
{
    match regex::Regex::new(pattern) {
        Ok(re) => Some(re.is_match(text)),
        Err(_) => None,
    }
}

/// What `regex::Regex::replace` makes of `text` with the first match of
/// `pattern` replaced by `rep`; `None` where `pattern` does not compile.
pub uninterp spec fn regex_replaced(pattern: Seq<char>, text: Seq<char>, rep: Seq<char>) -> Option<Seq<char>>;

/// Compiles `pattern` with `regex::Regex::new` and calls `replace`, which
/// replaces the leftmost match; in `rep`, `$` and a group name or number are
/// expanded to that group's text (`$$` is a `$`). The result is named and not
/// stated.
#[verifier::external_body]
pub(crate) fn regex_replace_first(pattern: &str, text: &str, rep: &str) -> (r: Option<String>)
    ensures
        r is Some <==> regex_replaced(pattern@, text@, rep@) is Some,
        r matches Some(s) ==> regex_replaced(pattern@, text@, rep@) == Some(s@),
{
    match regex::Regex::new(pattern) {
        Ok(re) => Some(re.replace(text, rep).into_owned()),
        Err(_) => None,
    }
}

} // verus!
