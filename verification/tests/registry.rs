use ayame::error::Error;
use ayame::menu::{Cursor, MenuAction, MenuEvent, MenuLayout, MenuState};
use ayame::slash_commands::{get_slash_handler, Scope, SlashCommandHandler, SlashCommandKind};

#[test]
fn every_alias_finds_its_command() {
    let handler = get_slash_handler();
    for kind in [
        SlashCommandKind::Play,
        SlashCommandKind::Join,
        SlashCommandKind::Invite,
        SlashCommandKind::Mock,
        SlashCommandKind::Leave,
        SlashCommandKind::Skip,
        SlashCommandKind::Mute,
        SlashCommandKind::Deafen,
        SlashCommandKind::Playing,
        SlashCommandKind::Pause,
        SlashCommandKind::Resume,
        SlashCommandKind::Search,
    ] {
        assert_eq!(handler.find(&kind.alias()), Some(kind));
    }
    assert_eq!(handler.find("unknown"), None);
}

#[test]
fn aliases_by_scope() {
    let handler = get_slash_handler();
    assert_eq!(handler.get_all_aliases(Scope::GLOBAL), vec!["invite".to_string(), "mock".to_string()]);
    let guild = handler.get_all_aliases(Scope::GUILD);
    assert_eq!(guild.len(), 10);
    assert_eq!(guild[0], "play");
    assert_eq!(guild[9], "search");
    assert_eq!(SlashCommandKind::Mock.scope(), Scope::GLOBAL);
    assert_eq!(SlashCommandKind::Skip.scope(), Scope::GUILD);
}

#[test]
fn first_command_with_an_alias_wins() {
    let mut handler = SlashCommandHandler::new();
    assert_eq!(handler.find("play"), None);
    handler.add_migration(SlashCommandKind::Pause);
    handler.add_migration(SlashCommandKind::Play);
    assert_eq!(handler.find("play"), Some(SlashCommandKind::Play));
    assert_eq!(handler.commands_in_scope(Scope::GUILD), vec![SlashCommandKind::Pause, SlashCommandKind::Play]);
}

#[test]
fn cursor_wraps_around_both_ends() {
    let list = vec![10, 20, 30];
    let mut c = Cursor::new(&list);
    assert_eq!(c.current(), Some(&10));
    assert_eq!(c.next(), Some(&20));
    assert_eq!(c.next(), Some(&30));
    assert_eq!(c.next(), Some(&10));
    assert_eq!(c.prev(), Some(&30));
    assert_eq!(c.prev(), Some(&20));
    assert_eq!(c.next(), Some(&30));
    let empty: Vec<i32> = vec![];
    assert_eq!(Cursor::new(&empty).current(), None);
    let mut from: Cursor<'_, i32> = Cursor::from(&list);
    assert_eq!(from.prev(), Some(&30));
}

fn two_row_menu() -> MenuLayout {
    let mut layout = MenuLayout::new();
    layout
        .add_row(vec!["current".to_string(), "next".to_string()])
        .add_row(vec!["weekday".to_string(), "next".to_string()]);
    layout
}

#[test]
fn menu_layout_finds_the_first_control_with_an_id() {
    let layout = two_row_menu();
    assert_eq!(layout.timeout(), 120);
    assert_eq!(layout.find_control("current").unwrap(), (0, 0));
    assert_eq!(layout.find_control("next").unwrap(), (0, 1));
    assert_eq!(layout.find_control("weekday").unwrap(), (1, 0));
    match layout.find_control("mensa") {
        Err(Error::InvalidInput(m)) => assert_eq!(m, "got unknown interaction"),
        other => panic!("unexpected {:?}", other),
    }
    let mut longer = MenuLayout::new();
    longer.set_timeout(3600);
    assert_eq!(longer.timeout(), 3600);
    assert!(longer.find_control("current").is_err());
}

#[test]
fn menu_steps_until_it_closes() {
    let mut state = MenuState::new(two_row_menu());
    assert!(state.running());
    assert_eq!(state.timeout(), 120);
    assert!(matches!(state.step(&MenuEvent::Clicked("next".to_string())), MenuAction::RunControl(0, 1)));
    assert!(matches!(state.step(&MenuEvent::Clicked("weekday".to_string())), MenuAction::RunControl(1, 0)));
    assert!(matches!(state.step(&MenuEvent::Clicked("other".to_string())), MenuAction::Abort(Error::InvalidInput(_))));
    assert!(matches!(state.step(&MenuEvent::ControlFinished), MenuAction::Continue));
    assert!(matches!(state.step(&MenuEvent::ControlFailed), MenuAction::AbortWithControlError));
    assert!(matches!(state.step(&MenuEvent::TimedOut), MenuAction::Close));
    state.stop();
    assert!(!state.running());
    assert!(matches!(state.step(&MenuEvent::ControlFinished), MenuAction::CloseAfterClick));
}
