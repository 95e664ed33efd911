//! How commands read their arguments: links are told apart from search
//! terms by the link pattern.
use crate::outside::{regex_finds, regex_is_match};
use crate::text::{
    chars_of, decimal, push_decimal, replace_all, replace_all_chars, string_of, trim_chars, trimmed,
};
use vstd::prelude::*;
use vstd::string::*;

verus! {

/// The pattern of a web link: an optional scheme, a host name with a top
/// level domain of two to five letters, an optional port and path.
pub const URL_PATTERN: &'static str = r"(http://www\.|https://www\.|http://|https://)?[a-z0-9]+([\-\.]{1}[a-z0-9]+)*\.[a-z]{2,5}(:[0-9]{1,5})?(/.*)?";

/// The spec text of the link pattern.
pub open spec fn url_pattern() -> Seq<char> {
    URL_PATTERN@
}

/// Whether what the user typed, without surrounding white space, is a link
/// (to be played directly) rather than a search term; `None` only where the
/// link pattern does not compile.
pub fn is_link(input: &str) -> (r: Option<bool>)
    ensures
        r == regex_finds(url_pattern(), trimmed(input@)),
{
    let t = string_of(trim_chars(&chars_of(input)).as_slice());
    regex_is_match(URL_PATTERN, t.as_str())
}

/// What the download command makes of its arguments.
#[derive(Debug)]
pub enum DownloadRequest {
    /// Not exactly one argument: the user is asked for a link.
    NeedOneLink,
    /// The argument is no link.
    NotALink(String),
    /// The link to download.
    Download(String),
    /// The link pattern does not compile.
    BadPattern,
}

/// Exactly one argument is needed, and it must match the link pattern.
pub fn download_request(args: &Vec<String>) -> (r: DownloadRequest)
    ensures
        args.len() != 1 ==> r is NeedOneLink,
        args.len() == 1 ==> match regex_finds(url_pattern(), args[0]@) {
            None => r is BadPattern,
            Some(true) => r matches DownloadRequest::Download(u) && u@ == args[0]@,
            Some(false) => r matches DownloadRequest::NotALink(u) && u@ == args[0]@,
        },
{
    if args.len() != 1 {
        return DownloadRequest::NeedOneLink;
    }
    let url = args[0].clone();
    match regex_is_match(URL_PATTERN, url.as_str()) {
        None => DownloadRequest::BadPattern,
        Some(true) => DownloadRequest::Download(url),
        Some(false) => DownloadRequest::NotALink(url),
    }
}

/// The reply to an argument that is no link: `… is not a valid url`.
pub fn not_a_link_reply(url: &str) -> (r: String)
    ensures
        r@ == url@ + " is not a valid url"@,
{
    let mut v = chars_of(url);
    crate::text::push_str(&mut v, " is not a valid url");
    string_of(v.as_slice())
}

/// Whether a link may be queued for playback: it must start with `http`.
pub fn is_playable_url(url: &str) -> (r: bool)
    ensures
        r == (url@.len() >= 4 && url@.subrange(0, 4) == "http"@),
{
    let v = chars_of(url);
    proof {
        reveal_strlit("http");
    }
    if v.len() < 4 {
        return false;
    }
    let r = v[0] == 'h' && v[1] == 't' && v[2] == 't' && v[3] == 'p';
    assert("http"@ =~= seq!['h', 't', 't', 'p']);
    let ghost head = v@.subrange(0, 4);
    assert(head[0] == v@[0] && head[1] == v@[1] && head[2] == v@[2] && head[3] == v@[3]);
    if r {
        assert(head =~= "http"@);
    } else {
        assert(head != "http"@) by {
            if head == "http"@ {
                assert(head[0] == 'h' && head[1] == 't' && head[2] == 't' && head[3] == 'p');
            }
        }
    }
    r
}

/// The text of the invite embed, before the two links are filled in where it
/// says `invite_url` and `admin_invite`.
pub const INVITE_TEMPLATE: &'static str = "Those are the requirements for the bot to run without any restrictions. \
        The bot is open source and the source code can be found on \
        [Github](https://github.com/nirusu99/ayame-rs). 

        [Click here](invite_url) to invite the bot with required permissions
        [Click here](admin_invite) to invite the bot with administrator privileges

        Why should you invite the bot with elevated permissions? 
        Because future releases might not be supported by the current set of permissions. \
        That means if a new command or feature doesn't work then that could mean that you have to \
        invite the bot again with the new set of permissions. \
        Administrator removes any restrictions which means the bot won't break (atleast never \
        because of permissions :D).";

/// The invite text with `invite_url` replaced by the link with the needed
/// permissions and then `admin_invite` by the link with administrator rights.
pub open spec fn spec_invite_description(invite_url: Seq<char>, admin_invite: Seq<char>) -> Seq<char> {
    replace_all(replace_all(INVITE_TEMPLATE@, "invite_url"@, invite_url), "admin_invite"@, admin_invite)
}

/// The description of the invite embed, with both links filled in.
pub fn invite_description(invite_url: &str, admin_invite: &str) -> (r: String)
    ensures
        r@ == spec_invite_description(invite_url@, admin_invite@),
{
    let pat1 = chars_of("invite_url");
    let pat2 = chars_of("admin_invite");
    proof {
        reveal_strlit("invite_url");
        reveal_strlit("admin_invite");
    }
    let once = replace_all_chars(&chars_of(INVITE_TEMPLATE), &pat1, &chars_of(invite_url));
    let twice = replace_all_chars(&once, &pat2, &chars_of(admin_invite));
    string_of(twice.as_slice())
}

/// The list of needed permissions, one per line: the `, ` between names of
/// the permission set's text become line breaks.
pub fn permission_lines(permissions: &str) -> (r: String)
    ensures
        r@ == replace_all(permissions@, ", "@, "\n"@),
{
    let pat = chars_of(", ");
    proof {
        reveal_strlit(", ");
    }
    let lines = replace_all_chars(&chars_of(permissions), &pat, &chars_of("\n"));
    string_of(lines.as_slice())
}

/// The footer of the invite embed: `Joined Guilds: ` and the number of guilds.
pub fn joined_guilds_footer(guilds: u64) -> (r: String)
    ensures
        r@ == "Joined Guilds: "@ + decimal(guilds as nat),
{
    let mut v = chars_of("Joined Guilds: ");
    push_decimal(&mut v, guilds);
    string_of(v.as_slice())
}

} // verus!
