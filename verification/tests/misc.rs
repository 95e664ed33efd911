use ayame::bot::Config as BotConfig;
use ayame::commands::{
    download_request, invite_description, is_link, is_playable_url, joined_guilds_footer, not_a_link_reply,
    permission_lines, DownloadRequest, INVITE_TEMPLATE,
};
use ayame::configuration::Config;
use ayame::error::Error;
use ayame::model::discord_utils::{
    choose_reaction, control_for, default_controls, default_emojis, error_title, get_max_uploadsize,
    select_event, MenuControl, PremiumTier, ReactionAction, SelectEvent, SelectFailure, SelectState,
    SelectStep,
};
use ayame::model::ffmpeg::{FFmpeg, FFmpegError};
use ayame::model::guild_manager::Guild;
use ayame::model::image_processing::reduce_emote_size;
use ayame::model::youtubedl::{
    audio_only_args, cut_file_name, default_args, download_dir_parts, too_large_message, upload_target,
    ytd_with_stamps, UploadTarget, YTDL,
};
use ayame::model::{mock_text, mock_with, Timestamp};
use ayame::music::{duration_format, hyperlink_song, loop_times_allowed, no_user_connected, upcoming_text, TrackMetadata};
use ayame::setup::{config_source, get_config_from_user, ConfigSource};
use ayame::text::IntErrorKind;
use ayame::util::{exclusion_collisions, exclusion_field, map_period, map_time, to_relative_timestamp, to_short_timestamp, Exclusion};
use ayame::utils::{menu_text, translate_weekday, weekday_german, Weekday};

fn file_config(color: &str) -> Config {
    Config::new(
        "tok".to_string(),
        "!".to_string(),
        42,
        None,
        "yt".to_string(),
        Some("mensa".to_string()),
        color.to_string(),
    )
}

#[test]
fn file_config_getters_and_colour() {
    let c = file_config("ff00aa");
    assert_eq!(c.token(), "tok");
    assert_eq!(c.prefix(), "!");
    assert_eq!(*c.get_application_id(), 42);
    assert!(!c.copy_codec());
    assert_eq!(c.mensa_api_key(), &Some("mensa".to_string()));
    assert_eq!(c.youtube_api_key(), "yt");
    assert_eq!(c.color().unwrap(), 0xff00aa);
    let e = file_config("#zz").color().unwrap_err();
    assert_eq!(e.message(), "couldn't parse color");
    assert_eq!(e.report(), "Error: couldn't parse color");
    assert_eq!(Error::InvalidInput("not in a guild").message(), "not in a guild");
}

#[test]
fn bot_config_defaults_and_colour_forms() {
    let mut c = BotConfig { discord_token: "d".into(), youtube_token: None, swfr_token: None, prefix: None, color: None };
    assert_eq!(c.prefix_or_default(), "~");
    assert_eq!(c.color_code(), Ok(0x23272A));
    c.color = Some("#FF0000".into());
    assert_eq!(c.color_code(), Ok(0xFF0000));
    c.color = Some("0x00ff00".into());
    assert_eq!(c.color_code(), Ok(0x00FF00));
    c.color = Some("#nothex".into());
    assert_eq!(c.color_code(), Err(IntErrorKind::InvalidDigit));
    c.prefix = Some("?".into());
    assert_eq!(c.prefix_or_default(), "?");
}

#[test]
fn user_input_is_trimmed() {
    let c = get_config_from_user("  my-token \n", "\t!\r\n");
    assert_eq!(c.token(), "my-token");
    assert_eq!(c.prefix(), "!");
    assert_eq!(get_config_from_user("\u{3000}a b\u{a0}", "").token(), "a b");
}

#[test]
fn where_the_settings_come_from() {
    assert_eq!(config_source(true, false, false), ConfigSource::AskUser);
    assert_eq!(config_source(false, false, false), ConfigSource::Abort);
    assert_eq!(config_source(false, true, true), ConfigSource::UseFile);
    assert_eq!(config_source(true, true, false), ConfigSource::AskUser);
    assert_eq!(config_source(false, true, false), ConfigSource::Abort);
}

#[test]
fn exclusions_hide_the_other_user() {
    let ex = vec![
        Exclusion::from((1u64, 2u64)),
        Exclusion::from((3u64, 4u64)),
        Exclusion::from((5i64, -1i64)),
        Exclusion::of_users(7, 8),
    ];
    assert_eq!(ex[2].users(), &(5, u64::MAX));
    assert_eq!(exclusion_collisions(&ex, &vec![2, 3, 9]), vec![1, 4]);
    assert_eq!(exclusion_collisions(&ex, &vec![5, 1]), vec![2, u64::MAX]);
    assert_eq!(exclusion_collisions(&ex, &vec![]), Vec::<u64>::new());
    let (name, value) = exclusion_field(0, &ex[0]);
    assert_eq!(name, "0 Exclusion");
    assert_eq!(value, "<@1> ignores <@2>");
}

#[test]
fn time_tags() {
    assert_eq!(to_relative_timestamp(1617280200), "<t:1617280200:R>");
    assert_eq!(to_short_timestamp(-5), "<t:-5:t>");
    assert_eq!(to_short_timestamp(i64::MIN), "<t:-9223372036854775808:t>");
    assert_eq!(map_period(10, 20), "from <t:10:t> to <t:20:t>");
    assert_eq!(map_time(true, 10, 20), " <t:10:R>");
    assert_eq!(map_time(false, 10, 20), "next map <t:20:R>");
}

#[test]
fn weekdays() {
    assert_eq!(translate_weekday("Montag"), "Mon");
    assert_eq!(translate_weekday("SO"), "Sun");
    assert_eq!(translate_weekday("mi"), "Wed");
    assert_eq!(translate_weekday("Friday"), "Friday");
    assert_eq!(translate_weekday("MONTAG"), "Mon");
    assert_eq!(translate_weekday("DoNnErStAg"), "Thu");
    assert_eq!(translate_weekday("SAMSTAG "), "SAMSTAG ");
    assert_eq!(weekday_german(&Weekday::Thu), "Donnerstag");
}

#[test]
fn menu_text_breaks_the_name_at_the_first_dash_run() {
    assert_eq!(
        menu_text("Schnitzel --- Pommes -- Salat", Some("Gluten"), "3,10", "4,50", "5,90").unwrap(),
        "Schnitzel \n\n!!!  Pommes -- Salat\n\nZusatz: Gluten\n\nPreis: 3,10/4,50/5,90"
    );
    assert_eq!(menu_text("Suppe", None, "1", "2", "3").unwrap(), "Suppe\n\nZusatz: None\n\nPreis: 1/2/3");
}

#[test]
fn mocked_text_keeps_the_letters() {
    let m = mock_text("Hello World");
    assert_eq!(m.to_lowercase(), "hello world");
    assert_eq!(ayame::utils::mock_text("abc").to_uppercase(), "ABC");
}

#[test]
fn mocked_text_follows_the_choices() {
    assert_eq!(mock_with("abc", &vec![true, false, true]), "AbC");
    assert_eq!(mock_with("HeLLo", &vec![false, false, false, false, false]), "hello");
    assert_eq!(mock_with("", &vec![]), "");
}

#[test]
fn youtube_dl_builder() {
    let mut y = YTDL::new(12);
    assert!(y.cut_interval().is_none());
    y.set_defaults(None).set_audio_only().arg(("--no-playlist".to_string(), None));
    let flags: Vec<&str> = y.arguments().iter().map(|(f, _)| f.as_str()).collect();
    assert_eq!(
        flags,
        vec!["--age-limit", "--output", "--add-metadata", "--extract-audio", "--audio-format", "--embed-thumbnail", "--no-playlist"]
    );
    assert_eq!(y.author_id(), 12);
    let start = Timestamp::from(0, 0, 5, 0).unwrap();
    y.set_start(start);
    let (s, e) = y.cut_interval().unwrap();
    assert_eq!(s.to_string(), "00:00:05.00");
    assert!(e.is_none());
    y.set_end(Timestamp::from(0, 1, 0, 0).unwrap());
    assert_eq!(y.cut_interval().unwrap().1.unwrap().to_string(), "00:01:00.00");
    let mut z = YTDL::new(3);
    z.set_defaults(Some("/c.txt")).args(&audio_only_args());
    assert_eq!(z.arguments().len(), 7);
    assert_eq!(z.arguments()[3], ("--cookies".to_string(), Some("/c.txt".to_string())));
    let w = ytd_with_stamps(5, true, Some(Timestamp::from(0, 0, 7, 0).unwrap()), None, None);
    assert_eq!(w.author_id(), 5);
    assert_eq!(w.arguments().len(), 6);
    assert_eq!(w.arguments()[3].0, "--extract-audio");
    assert_eq!(w.cut_interval().unwrap().0.to_string(), "00:00:07.00");
    let plain = ytd_with_stamps(5, false, None, Some(Timestamp::from(0, 0, 9, 0).unwrap()), None);
    assert_eq!(plain.arguments().len(), 3);
    assert!(plain.cut_interval().is_none());
}

#[test]
fn links_and_downloads() {
    assert_eq!(is_link("  https://www.youtube.com/watch?v=abc "), Some(true));
    assert_eq!(is_link("youtube.com"), Some(true));
    assert_eq!(is_link("lofi stream"), Some(false));
    assert!(is_playable_url("https://x.org"));
    assert!(!is_playable_url("ftp://x.org"));
    assert!(!is_playable_url("htt"));
    assert!(matches!(download_request(&vec![]), DownloadRequest::NeedOneLink));
    match download_request(&vec!["https://a.com/v".to_string()]) {
        DownloadRequest::Download(u) => assert_eq!(u, "https://a.com/v"),
        other => panic!("unexpected {:?}", other),
    }
    assert!(matches!(download_request(&vec!["nolink".to_string()]), DownloadRequest::NotALink(_)));
    assert_eq!(not_a_link_reply("x"), "x is not a valid url");
}

#[test]
fn ffmpeg_arguments() {
    let mut f = FFmpeg::new("in.mkv");
    assert_eq!(f.cut_args("out.mp4", true), vec!["-i", "in.mkv", "-c", "copy", "out.mp4"]);
    let start = Timestamp::from(0, 1, 2, 3).unwrap();
    let end = Timestamp::from(0, 4, 5, 60).unwrap();
    f.set_interval(start, Some(end));
    assert_eq!(
        f.cut_args("out.mp4", false),
        vec!["-i", "in.mkv", "-ss", "00:01:02.03", "-to", "00:04:05.60", "out.mp4"]
    );
    assert_eq!(FFmpegError::new("boom").description(), "boom");
}

#[test]
fn download_decisions() {
    assert_eq!(upload_target(7_999_999), UploadTarget::Discord);
    assert_eq!(upload_target(8_000_000), UploadTarget::TransferSh);
    assert_eq!(upload_target(199_999_999), UploadTarget::TransferSh);
    assert_eq!(upload_target(200_000_000), UploadTarget::TooLarge);
    assert_eq!(too_large_message(), "Your download was larger than 200mb");
    assert_eq!(cut_file_name("mkv"), "cut_file.mp4");
    assert_eq!(cut_file_name("webm"), "cut_file.webm");
    assert_eq!(download_dir_parts(77), vec!["tmp", "ytd", "77"]);
    let a = audio_only_args();
    assert_eq!(a[1], ("--audio-format".to_string(), Some("mp3".to_string())));
    let d = default_args(Some("/bot/cookies.txt"));
    assert_eq!(d.len(), 4);
    assert_eq!(d[3], ("--cookies".to_string(), Some("/bot/cookies.txt".to_string())));
    assert_eq!(default_args(None).len(), 3);
}

#[test]
fn guild_settings() {
    let mut g = Guild::new(9, "!".to_string(), 50);
    g.set_prefix("?".to_string());
    g.set_volume(80);
    assert_eq!((g.get_id(), g.get_prefix(), g.get_volume()), (9, "?", 80));
    assert_eq!(get_max_uploadsize(PremiumTier::Tier2), 50_000_000);
    assert_eq!(get_max_uploadsize(PremiumTier::Tier3), 100_000_000);
    assert_eq!(get_max_uploadsize(PremiumTier::Tier1), 8_000_000);
    assert_eq!(ayame::model::music_manager::test(), "Test success!");
    let img = 5u8;
    assert_eq!(reduce_emote_size(&img).unwrap(), &5u8);
    assert_eq!(error_title("nothing found"), "Error: nothing found");
}

#[test]
fn song_texts() {
    let meta = TrackMetadata {
        title: Some("Song".into()),
        artist: Some("Artist".into()),
        source_url: Some("https://s".into()),
        thumbnail: None,
        duration: Some((9420, 0)),
    };
    assert_eq!(hyperlink_song(&meta), "[Song](https://s)");
    assert_eq!(duration_format(meta.duration), "2h 37m");
    assert_eq!(duration_format(Some((61, 32_500_000))), "1m 1s 500us");
    assert_eq!(duration_format(Some((0, 1_000_000))), "0s");
    assert_eq!(duration_format(Some((0, 0))), "unknown");
    assert_eq!(duration_format(None), "unknown");
    let titles = vec![Some("now".to_string()), Some("a".to_string()), None, Some("c".to_string())];
    assert_eq!(upcoming_text(&titles), "1. a\n3. c\n");
    let many: Vec<Option<String>> = (0..9).map(|i| Some(i.to_string())).collect();
    assert_eq!(upcoming_text(&many), "1. 1\n2. 2\n3. 3\n4. 4\n5. 5\n");
    assert_eq!(upcoming_text(&vec![Some("only".to_string())]), "");
    assert!(no_user_connected(&vec![true, true]));
    assert!(!no_user_connected(&vec![true, false]));
    assert!(loop_times_allowed(10));
    assert!(!loop_times_allowed(11));
}

#[test]
fn selection_menu_walks_and_ends() {
    assert_eq!(default_controls(), vec![MenuControl::Prev, MenuControl::Select, MenuControl::Cancel, MenuControl::Next]);
    let mut s = SelectState::new(3);
    assert_eq!(s.step(), SelectStep::Show(0));
    s.handle(SelectEvent::Pressed(MenuControl::Prev));
    assert_eq!(s.step(), SelectStep::Show(2));
    s.handle(SelectEvent::Pressed(MenuControl::Next));
    assert_eq!(s.step(), SelectStep::Show(0));
    s.handle(SelectEvent::Pressed(MenuControl::Next));
    s.handle(SelectEvent::Pressed(MenuControl::Select));
    assert_eq!(s.step(), SelectStep::Finish(1));
    let mut c = SelectState::new(2);
    c.handle(SelectEvent::Pressed(MenuControl::Cancel));
    assert_eq!(c.step(), SelectStep::Abort(SelectFailure::Canceled));
    assert_eq!(SelectFailure::Canceled.message(), "selection was canceled by user");
    assert_eq!(SelectState::new(0).step(), SelectStep::Abort(SelectFailure::PagesEmpty));
    let mut t = SelectState::new(1);
    t.handle(SelectEvent::Timeout);
    assert_eq!(t.step(), SelectStep::Abort(SelectFailure::Timeout));
    let mut u = SelectState::new(4);
    u.handle(SelectEvent::UnknownControl);
    assert_eq!(u.step(), SelectStep::Finish(0));
}

#[test]
fn invite_texts() {
    let d = invite_description("https://a.example/inv", "https://a.example/admin");
    assert!(d.contains("[Click here](https://a.example/inv) to invite the bot with required permissions"));
    assert!(d.contains("[Click here](https://a.example/admin) to invite the bot with administrator privileges"));
    assert!(!d.contains("invite_url") && !d.contains("admin_invite"));
    assert_eq!(d.len(), INVITE_TEMPLATE.len() - "invite_url".len() - "admin_invite".len() + 21 + 23);
    assert!(d.starts_with("Those are the requirements for the bot to run without any restrictions. The bot is open source"));
    assert_eq!(permission_lines("Send Messages, Embed Links, Speak"), "Send Messages\nEmbed Links\nSpeak");
    assert_eq!(permission_lines(""), "");
    assert_eq!(joined_guilds_footer(0), "Joined Guilds: 0");
    assert_eq!(joined_guilds_footer(1234), "Joined Guilds: 1234");
}

#[test]
fn reactions_pick_the_first_matching_control() {
    let emojis = default_emojis();
    assert_eq!(emojis, vec!["\u{25C0}", "\u{2705}", "\u{1F6AB}", "\u{25B6}"]);
    assert_eq!(control_for(&emojis, "\u{25B6}"), Some(3));
    assert_eq!(control_for(&emojis, "\u{2705}"), Some(1));
    assert_eq!(control_for(&emojis, "x"), None);
    let twice = vec!["a".to_string(), "b".to_string(), "a".to_string()];
    assert_eq!(control_for(&twice, "a"), Some(0));
    let added = |e: &str| ReactionAction::Added(e.to_string());
    let removed = |e: &str| ReactionAction::Removed(e.to_string());
    assert_eq!(choose_reaction(&emojis, &vec![]), Err(SelectFailure::Timeout));
    assert_eq!(choose_reaction(&emojis, &vec![removed("\u{25B6}")]), Err(SelectFailure::Timeout));
    assert_eq!(choose_reaction(&emojis, &vec![added("x"), added("y")]), Err(SelectFailure::InvalidInput));
    assert_eq!(
        choose_reaction(&emojis, &vec![removed("\u{2705}"), added("x"), added("\u{25B6}"), added("\u{2705}")]),
        Ok((3, 2))
    );
    let controls = default_controls();
    assert_eq!(select_event(&controls, Ok((3, 2))), SelectEvent::Pressed(MenuControl::Next));
    assert_eq!(select_event(&controls, Ok((7, 0))), SelectEvent::UnknownControl);
    assert_eq!(select_event(&controls, Err(SelectFailure::Timeout)), SelectEvent::Timeout);
    assert_eq!(select_event(&controls, Err(SelectFailure::InvalidInput)), SelectEvent::NoMatchingReaction);
    let choice = choose_reaction(&emojis, &vec![added("\u{1F6AB}")]);
    let mut state = SelectState::new(2);
    state.handle(select_event(&controls, choice));
    assert_eq!(state.step(), SelectStep::Abort(SelectFailure::Canceled));
}

#[test]
fn exclusions_from_pairs() {
    let e = Exclusion::from((3u64, 4u64));
    assert_eq!(e.users(), &(3, 4));
    let stored = Exclusion::from((-1i64, 2i64));
    assert_eq!(stored.users(), &(u64::MAX, 2));
    assert_eq!((stored.users().0 as i64, stored.users().1 as i64), (-1, 2));
}
