use waveline::player::{
    idle_react, keeps_waiting, position_ms, react, toggle_command, IdleReaction, PlayerCommand, Reaction,
};
use waveline::app::{Action, App, Effect, Filter, Focus, Input, Section, Visual};
use waveline::audio::scale_samples;
use waveline::frontend::{demo_tracks, help, key_effect, truncate, Key, KeyEffect};
use waveline::model::{Platform, Track};
use waveline::mpris::{playback_status, route, MediaCommand, MediaRoute, MediaStatus};
use waveline::theme::{Color, Theme};
use waveline::ui::{contains, scroll_first, Pointer, Rect, Regions};

#[test]
fn scroll_garde_la_selection_visible() {
    // En haut : pas de décalage.
    assert_eq!(scroll_first(0, 100, 10), 0);
    // Au milieu : centré.
    assert_eq!(scroll_first(50, 100, 10), 45);
    // En bas : borné à max_first.
    assert_eq!(scroll_first(99, 100, 10), 90);
    // Liste plus courte que la fenêtre.
    assert_eq!(scroll_first(3, 5, 10), 0);
}

#[test]
fn contains_teste_les_bornes() {
    let r = Rect::new(2, 3, 4, 2);
    assert!(contains(&r, 2, 3));
    assert!(contains(&r, 5, 4));
    assert!(!contains(&r, 6, 3));
    assert!(!contains(&r, 2, 5));
}

#[test]
fn scroll_zero_height() {
    assert_eq!(scroll_first(7, 100, 0), 0);
    assert_eq!(scroll_first(5, 11, 10), 0);
    assert_eq!(scroll_first(10, 11, 10), 1);
}

#[test]
fn regions_hit_tests() {
    let mut reg = Regions::default();
    reg.sidebar_rows = vec![Rect::new(0, 1, 10, 1), Rect::new(0, 2, 10, 1)];
    reg.filter_tabs = vec![
        (Rect::new(50, 0, 6, 1), Filter::All),
        (Rect::new(57, 0, 4, 1), Filter::Only(Platform::SoundCloud)),
    ];
    reg.list_inner = Rect::new(20, 5, 30, 10);
    reg.list_first = 3;
    reg.list_len = 6;
    reg.playpause_btn = Rect::new(1, 20, 3, 1);
    assert_eq!(reg.section_at(3, 2), Some(1));
    assert_eq!(reg.section_at(3, 3), None);
    assert_eq!(reg.filter_at(58, 0), Some(Filter::Only(Platform::SoundCloud)));
    assert_eq!(reg.filter_at(56, 0), None);
    assert_eq!(reg.list_row_at(21, 5), Some(3));
    assert_eq!(reg.list_row_at(21, 7), Some(5));
    assert_eq!(reg.list_row_at(21, 8), None);
    assert_eq!(reg.list_row_at(19, 5), None);
    assert!(reg.playpause_at(3, 20));
    assert!(!reg.playpause_at(4, 20));
}

#[test]
fn key_bindings() {
    assert_eq!(key_effect(Key::Char('q'), false), KeyEffect::Apply(Action::Quit));
    assert_eq!(key_effect(Key::Char('c'), true), KeyEffect::Apply(Action::Quit));
    assert_eq!(key_effect(Key::Char('c'), false), KeyEffect::Apply(Action::BeginHandles));
    assert_eq!(key_effect(Key::Char(':'), false), KeyEffect::Apply(Action::BeginCommand));
    assert_eq!(key_effect(Key::Char('/'), false), KeyEffect::Apply(Action::BeginSearch));
    assert_eq!(key_effect(Key::Char('v'), false), KeyEffect::Apply(Action::CycleVisual));
    assert_eq!(key_effect(Key::Esc, false), KeyEffect::Ignore);
    assert_eq!(key_effect(Key::Down, false), KeyEffect::Apply(Action::Down));
    assert_eq!(key_effect(Key::Char('k'), false), KeyEffect::Apply(Action::Up));
    assert_eq!(key_effect(Key::Char('G'), false), KeyEffect::Apply(Action::Bottom));
    assert_eq!(key_effect(Key::Char('='), false), KeyEffect::Apply(Action::VolumeUp));
    assert_eq!(key_effect(Key::Char('3'), false), KeyEffect::Apply(Action::FilterMixcloud));
    assert_eq!(key_effect(Key::Tab, false), KeyEffect::Apply(Action::ToggleFocus));
    assert_eq!(key_effect(Key::Char('?'), false), KeyEffect::ShowHelp);
    assert_eq!(key_effect(Key::Char('s'), false), KeyEffect::Apply(Action::Stop));
    assert_eq!(key_effect(Key::Other, false), KeyEffect::Ignore);
    assert!(help().starts_with("Aide : "));
}

#[test]
fn truncation() {
    assert_eq!(truncate("abc", 3), "abc");
    assert_eq!(truncate("abcdef", 3), "abc…");
    assert_eq!(truncate("ééé", 2), "éé…");
    assert_eq!(truncate("", 0), "");
}

#[test]
fn demo_playlist() {
    let d = demo_tracks();
    assert_eq!(d.len(), 2);
    assert_eq!(d[0].platform, Platform::SoundCloud);
    assert_eq!(d[1].platform, Platform::Mixcloud);
    assert_eq!(d[1].duration_ms, Some(3_584_000));
}

#[test]
fn media_status() {
    assert_eq!(playback_status(true, true, true), MediaStatus::Playing);
    assert_eq!(playback_status(false, true, false), MediaStatus::Paused);
    assert_eq!(playback_status(false, false, true), MediaStatus::Paused);
    assert_eq!(playback_status(false, false, false), MediaStatus::Stopped);
}

#[test]
fn pcm_scaling() {
    assert_eq!(scale_samples(&[1, -1, 256], 100), vec![1, 0, 0xff, 0xff, 0, 1]);
    assert_eq!(scale_samples(&[1000, -1000], 50), vec![0xf4, 0x01, 0x0c, 0xfe]);
    assert_eq!(scale_samples(&[-199], 1), vec![0xff, 0xff]);
    assert_eq!(scale_samples(&[32767, -32768], 0), vec![0, 0, 0, 0]);
    assert_eq!(scale_samples(&[300], 200), vec![0x2c, 0x01]);
}

#[test]
fn dark_theme_colours() {
    let t = Theme::dark();
    assert_eq!(t.bg, Color::Reset);
    assert_eq!(t.platform(Platform::SoundCloud), Color::Rgb(0xFF, 0x55, 0x00));
    assert_eq!(t.platform(Platform::Mixcloud), Color::Rgb(0x52, 0xA8, 0xC8));
}

#[test]
fn player_decisions() {
    // Pausing waits for the next command; resuming decodes again.
    let r = react(false, Some(PlayerCommand::Pause));
    assert_eq!(r, Reaction::Pause);
    assert!(keeps_waiting(false, &r));
    let r = react(true, Some(PlayerCommand::Resume));
    assert_eq!(r, Reaction::Resume);
    assert!(!keeps_waiting(true, &r));
    // An empty queue while playing decodes; a closed channel while paused quits.
    assert_eq!(react(false, None), Reaction::Decode);
    assert!(!keeps_waiting(false, &Reaction::Decode));
    assert_eq!(react(true, None), Reaction::Quit);
    assert_eq!(react(true, Some(PlayerCommand::Stop)), Reaction::Stop);
    assert_eq!(react(false, Some(PlayerCommand::Quit)), Reaction::Quit);
    assert_eq!(
        react(false, Some(PlayerCommand::Play("u".to_string()))),
        Reaction::Switch("u".to_string())
    );
    // The idle worker only cares about Play and Quit.
    assert_eq!(idle_react(PlayerCommand::Play("v".to_string())), IdleReaction::Play("v".to_string()));
    assert_eq!(idle_react(PlayerCommand::Quit), IdleReaction::Quit);
    assert_eq!(idle_react(PlayerCommand::Pause), IdleReaction::Ignore);
    assert_eq!(idle_react(PlayerCommand::Stop), IdleReaction::Ignore);
}

#[test]
fn toggling_pauses_or_resumes() {
    assert_eq!(toggle_command(true), PlayerCommand::Pause);
    assert_eq!(toggle_command(false), PlayerCommand::Resume);
}

#[test]
fn playback_position() {
    assert_eq!(position_ms(44_100, 44_100), 1_000);
    assert_eq!(position_ms(22_050, 44_100), 500);
    assert_eq!(position_ms(1, 48_000), 0);
    assert_eq!(position_ms(0, 8_000), 0);
}

#[test]
fn media_commands_are_routed_like_keys() {
    assert_eq!(route(MediaCommand::PlayPause, true), MediaRoute::Apply(Action::PlayPause));
    assert_eq!(route(MediaCommand::Play, false), MediaRoute::Apply(Action::PlayPause));
    assert_eq!(route(MediaCommand::Play, true), MediaRoute::Ignore);
    assert_eq!(route(MediaCommand::Pause, true), MediaRoute::Apply(Action::PlayPause));
    assert_eq!(route(MediaCommand::Pause, false), MediaRoute::Ignore);
    assert_eq!(route(MediaCommand::Next, false), MediaRoute::Apply(Action::Next));
    assert_eq!(route(MediaCommand::Prev, false), MediaRoute::Apply(Action::Prev));
    assert_eq!(route(MediaCommand::Quit, true), MediaRoute::Apply(Action::Quit));
    assert_eq!(route(MediaCommand::Stop, true), MediaRoute::Engine(Effect::Stop));
    assert_eq!(route(MediaCommand::SetVolume(40), true), MediaRoute::Engine(Effect::SetVolume(40)));
    assert_eq!(route(MediaCommand::SetVolume(250), true), MediaRoute::Engine(Effect::SetVolume(100)));
}

fn clickable() -> Regions {
    let mut reg = Regions::default();
    reg.sidebar_rows = vec![Rect::new(0, 1, 10, 1), Rect::new(0, 2, 10, 1), Rect::new(0, 3, 10, 1)];
    reg.filter_tabs = vec![(Rect::new(50, 0, 6, 1), Filter::Only(Platform::Mixcloud))];
    reg.list_inner = Rect::new(20, 5, 30, 10);
    reg.list_first = 0;
    reg.list_len = 2;
    reg.playpause_btn = Rect::new(1, 20, 3, 1);
    reg
}

fn two_tracks() -> App {
    let mut a = App::new();
    for (p, t) in [(Platform::SoundCloud, "a"), (Platform::Mixcloud, "b")] {
        a.tracks.push(Track {
            platform: p,
            id: t.into(),
            title: t.into(),
            artist: "x".into(),
            permalink: format!("https://p/{t}"),
            duration_ms: None,
        });
    }
    a
}

#[test]
fn clicks_are_dispatched_in_order() {
    let reg = clickable();
    assert!(reg.fit());
    let mut a = two_tracks();
    // a list row selects and plays that track
    assert!(reg.click_allowed(Pointer::LeftDown(21, 6)));
    assert_eq!(a.click(&reg, Pointer::LeftDown(21, 6)), Some(Effect::Play("https://p/b".into())));
    assert_eq!(a.list_index, 1);
    // the play/pause button toggles it
    assert_eq!(a.click(&reg, Pointer::LeftDown(2, 20)), Some(Effect::Toggle));
    // a sidebar row selects and loads its section
    assert_eq!(a.click(&reg, Pointer::LeftDown(3, 3)), Some(Effect::Load(Section::Feed)));
    assert_eq!(a.section_index, 2);
    assert_eq!(a.focus, Focus::List);
    // a filter tab applies its filter
    assert_eq!(a.click(&reg, Pointer::LeftDown(51, 0)), None);
    assert_eq!(a.filter, Filter::Only(Platform::Mixcloud));
    // the wheel moves the list cursor
    assert_eq!(a.click(&reg, Pointer::ScrollDown), None);
    assert_eq!(a.click(&reg, Pointer::ScrollUp), None);
    assert_eq!(a.list_index, 0);
    // nothing under the cell
    assert_eq!(a.click(&reg, Pointer::LeftDown(70, 30)), None);
    assert_eq!(a.click(&reg, Pointer::Other), None);
    // a row past the last section cannot be handled
    let mut wide = clickable();
    wide.sidebar_rows = (1..=7).map(|y| Rect::new(0, y, 10, 1)).collect();
    assert!(!wide.click_allowed(Pointer::LeftDown(3, 7)));
    assert!(wide.click_allowed(Pointer::LeftDown(3, 6)));
}

#[test]
fn well_formed_checks() {
    let mut a = App::new();
    assert!(a.well_formed());
    a.section_index = 6;
    assert!(!a.well_formed());
    a.section_index = 1;
    assert!(!a.well_formed());
    a.section = Section::Playlists;
    assert!(a.well_formed());
    let mut reg = clickable();
    reg.list_inner = Rect::new(65535, 0, 1, 1);
    assert!(!reg.fit());
}

fn type_text(a: &mut App, text: &str) {
    for c in text.chars() {
        assert_eq!(a.type_key(Key::Char(c)), None);
    }
}

#[test]
fn command_line_pastes_urls_and_searches() {
    let mut a = App::new();
    // closed: keys do nothing
    assert_eq!(a.type_key(Key::Char('x')), None);
    assert_eq!(a.input, Input::Normal);
    a.apply(Action::BeginCommand);
    type_text(&mut a, "  https://soundcloud.com/a/bx");
    assert_eq!(a.type_key(Key::Backspace), None);
    assert_eq!(a.input, Input::Command("  https://soundcloud.com/a/b".into()));
    assert_eq!(a.type_key(Key::Enter), Some(Effect::Play("https://soundcloud.com/a/b".into())));
    assert_eq!(a.input, Input::Normal);
    // blank submissions ask for nothing
    a.apply(Action::BeginSearch);
    type_text(&mut a, "   ");
    assert_eq!(a.type_key(Key::Enter), None);
    a.apply(Action::BeginSearch);
    type_text(&mut a, " deep house ");
    assert_eq!(a.type_key(Key::Enter), Some(Effect::Search("deep house".into())));
    // escape closes without effect
    a.apply(Action::BeginCommand);
    type_text(&mut a, "abc");
    assert_eq!(a.type_key(Key::Esc), None);
    assert_eq!(a.input, Input::Normal);
}

#[test]
fn handles_are_typed_in_two_steps() {
    let mut a = App::new();
    a.apply(Action::BeginHandles);
    type_text(&mut a, "https://soundcloud.com/flume");
    assert_eq!(
        a.type_key(Key::Enter),
        Some(Effect::SetHandle(Platform::SoundCloud, Some("flume".into())))
    );
    assert_eq!(a.input, Input::Handle(Platform::Mixcloud, String::new()));
    assert_eq!(a.type_key(Key::Enter), Some(Effect::SetHandle(Platform::Mixcloud, None)));
    assert_eq!(a.input, Input::Normal);
}

#[test]
fn visualiser_styles_cycle() {
    let mut a = App::new();
    assert_eq!(a.visual, Visual::Bars);
    a.apply(Action::CycleVisual);
    assert_eq!(a.visual, Visual::Mirror);
    a.apply(Action::CycleVisual);
    assert_eq!(a.visual, Visual::Scope);
    assert_eq!(a.apply(Action::CycleVisual), None);
    assert_eq!(a.visual, Visual::Bars);
}
