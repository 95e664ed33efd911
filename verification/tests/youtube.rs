use ayame::model::youtube::{
    format_hyperlink, hyperlink_result, status_failure, Id, Snippet, Thumbnail, Thumbnails, Type, YoutubeResponse,
    YoutubeResult, YoutubeSearch,
};

fn thumb(url: &str) -> Thumbnail {
    Thumbnail { url: url.to_string(), width: Some(120), height: None }
}

fn result(kind: &str, id: &str, title: &str, channel: &str) -> YoutubeResult {
    YoutubeResult {
        kind: "youtube#searchResult".to_string(),
        etag: "tag".to_string(),
        id: Id { kind: kind.to_string(), id: id.to_string() },
        snippet: Snippet {
            published_at: "2021-04-01T12:30:00Z".to_string(),
            channel_id: "UC123".to_string(),
            title: title.to_string(),
            description: String::new(),
            thumbnails: Thumbnails {
                default: thumb("small.jpg"),
                medium: thumb("medium.jpg"),
                high: thumb("high.jpg"),
            },
            channel_title: channel.to_string(),
        },
    }
}

#[test]
fn query_holds_every_setting_in_order() {
    let mut search = YoutubeSearch::new("KEY");
    search.set_amount(5).set_filter(Type::VIDEO);
    search.add_query("regionCode", "DE");
    assert_eq!(
        search._build_query("lofi"),
        "part=snippet&q=lofi&maxResults=5&type=video&key=KEY&regionCode=DE"
    );
    let plain = YoutubeSearch::new("K");
    assert_eq!(plain._build_query("x"), "part=snippet&q=x&key=K");
}

#[test]
fn search_url_sets_the_query_on_the_endpoint() {
    let mut search = YoutubeSearch::new("K");
    search.set_amount(1);
    let url = search.search_url("noel ch").unwrap();
    assert_ne!(url, search._build_query("noel ch"));
    assert!(url.starts_with("https://www.googleapis.com/youtube/v3/search?part=snippet&q=noel"));
    assert!(url.ends_with("&maxResults=1&key=K"));
}

#[test]
fn links_follow_the_kind_of_the_id() {
    assert_eq!(result("youtube#video", "abc", "t", "c").url(), "https://www.youtube.com/watch?v=abc");
    assert_eq!(result("youtube#channel", "UCx", "t", "c").url(), "https://www.youtube.com/channel/UCx");
    assert_eq!(result("youtube#playlist", "PL1", "t", "c").url(), "https://www.youtube.com/watch?list=PL1");
    assert_eq!(result("youtube#other", "q", "t", "c").url(), "none");
    assert_eq!(result("youtube#video", "abc", "t", "c").result_type(), Type::VIDEO);
    assert_eq!(result("youtube#video", "abc", "t", "c").channel_url(), "https://www.youtube.com/channel/UC123");
    assert_eq!(Type::PLAYLIST.to_string(), "playlist");
}

#[test]
fn titles_are_decoded_and_linked() {
    let r = result("youtube#video", "abc", "Tom &amp; Jerry", "Cartoon &quot;Network&quot;");
    assert_eq!(r.title(), "Tom & Jerry");
    assert_eq!(r.channel_name(), "Cartoon \"Network\"");
    assert_eq!(hyperlink_result(&r), "[Tom & Jerry - Cartoon \"Network\"](https://www.youtube.com/watch?v=abc)");
    let c = result("youtube#channel", "UCx", "Noel Ch.", "Noel Ch.");
    assert_eq!(hyperlink_result(&c), "[Noel Ch.](https://www.youtube.com/channel/UCx)");
    assert_eq!(format_hyperlink(Type::VIDEO, "a", "b", "u"), "[a - b](u)");
}

#[test]
fn thumbnails_and_results() {
    let r = result("youtube#video", "abc", "t", "c");
    assert_eq!(r.small_thumbnail().url(), "small.jpg");
    assert_eq!(r.medium_thumbnail().url(), "medium.jpg");
    assert_eq!(r.thumbnail().url(), "high.jpg");
    assert_eq!(r.thumbnail().width(), Some(120));
    assert_eq!(r.thumbnail().height(), None);
    let response = YoutubeResponse { items: vec![r, result("youtube#channel", "x", "t", "c")] };
    assert_eq!(response.results().len(), 2);
    assert_eq!(response.results()[1].result_type(), Type::CHANNEL);
}

#[test]
fn publishing_time_is_read_as_unix_seconds() {
    let r = result("youtube#video", "abc", "t", "c");
    assert_eq!(r.time_published(), (1617280200, 0));
    assert_eq!(r.published_time(), Some((1617280200, 0)));
    let mut fine = result("youtube#video", "abc", "t", "c");
    fine.snippet.published_at = "2021-04-01T12:30:00.25+02:00".to_string();
    assert_eq!(fine.published_time(), Some((1617273000, 250_000_000)));
    let mut bad = result("youtube#video", "abc", "t", "c");
    bad.snippet.published_at = "yesterday".to_string();
    assert_eq!(bad.published_time(), None);
}

#[test]
fn search_status_decides_the_answer() {
    assert_eq!(status_failure(200), None);
    assert_eq!(status_failure(404).unwrap(), "youtube search failed with wrong status code: 404");
    assert_eq!(status_failure(500).unwrap(), "youtube search failed with wrong status code: 500");
    assert!(YoutubeSearch::new("k").search_url("").is_some());
}
