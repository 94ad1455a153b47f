use waveline::app::{Action, App, Effect, Filter, Focus, Section};
use waveline::model::{Platform, Track};
use waveline::providers::{interleave, sources_of, Source};

fn track(p: Platform, title: &str) -> Track {
    Track {
        platform: p,
        id: title.into(),
        title: title.into(),
        artist: "artiste".into(),
        permalink: "https://x".into(),
        duration_ms: Some(200_000),
    }
}

fn app_with_mix() -> App {
    let mut a = App::new();
    a.tracks = vec![
        track(Platform::SoundCloud, "sc1"),
        track(Platform::Mixcloud, "mc1"),
        track(Platform::SoundCloud, "sc2"),
    ];
    a
}

#[test]
fn navigation_liste_clampe_aux_bornes() {
    let mut a = app_with_mix();
    a.apply(Action::Up); // déjà en haut
    assert_eq!(a.list_index, 0);
    a.apply(Action::Bottom);
    assert_eq!(a.list_index, 2);
    a.apply(Action::Down); // déjà en bas
    assert_eq!(a.list_index, 2);
}

#[test]
fn filtre_plateforme_reduit_les_visibles() {
    let mut a = app_with_mix();
    a.apply(Action::FilterMixcloud);
    assert_eq!(a.visible_indices().len(), 1);
    assert_eq!(a.selected_track().unwrap().title, "mc1");
    a.apply(Action::FilterAll);
    assert_eq!(a.visible_indices().len(), 3);
}

#[test]
fn activer_un_morceau_lance_la_lecture() {
    let mut a = app_with_mix();
    a.apply(Action::Activate);
    assert!(a.playback.playing);
    assert_eq!(a.playback.current.unwrap().title, "sc1");
}

#[test]
fn play_pause_bascule() {
    let mut a = app_with_mix();
    a.apply(Action::PlayPause); // lance sc1
    assert!(a.playback.playing);
    a.apply(Action::PlayPause); // pause
    assert!(!a.playback.playing);
}

#[test]
fn volume_borne_a_100() {
    let mut a = App::new();
    for _ in 0..10 {
        a.apply(Action::VolumeUp);
    }
    assert_eq!(a.playback.volume, 100);
}

// --- Further scenarios and laws on concrete values ---------------------------

#[test]
fn new_app_initial_state() {
    let a = App::new();
    assert!(!a.should_quit);
    assert_eq!(a.focus, Focus::List);
    assert_eq!(a.section, Section::Likes);
    assert_eq!(a.section_index, 0);
    assert_eq!(a.filter, Filter::All);
    assert!(a.tracks.is_empty());
    assert_eq!(a.playback.volume, 80);
    assert!(a.playback.current.is_none());
    assert_eq!(a.status, "Bienvenue dans waveline — appuie sur ? pour l'aide");
}

#[test]
fn visible_indices_follow_filter() {
    let mut a = app_with_mix();
    assert_eq!(a.visible_indices(), vec![0, 1, 2]);
    a.apply(Action::FilterSoundCloud);
    assert_eq!(a.visible_indices(), vec![0, 2]);
    assert_eq!(a.status, "Filtre : SoundCloud");
    a.apply(Action::FilterMixcloud);
    assert_eq!(a.visible_indices(), vec![1]);
    assert_eq!(a.status, "Filtre : Mixcloud");
    a.apply(Action::FilterAll);
    assert_eq!(a.status, "Filtre : Tout");
}

#[test]
fn filter_resets_cursor() {
    let mut a = app_with_mix();
    a.apply(Action::Bottom);
    assert_eq!(a.list_index, 2);
    a.apply(Action::FilterSoundCloud);
    assert_eq!(a.list_index, 0);
    assert_eq!(a.selected_track().unwrap().title, "sc1");
}

#[test]
fn toggle_focus_twice_restores() {
    let mut a = app_with_mix();
    a.apply(Action::ToggleFocus);
    assert_eq!(a.focus, Focus::Sidebar);
    a.apply(Action::ToggleFocus);
    assert_eq!(a.focus, Focus::List);
}

#[test]
fn sidebar_wraps_around() {
    let mut a = app_with_mix();
    a.apply(Action::FocusSidebar);
    a.apply(Action::Up);
    assert_eq!(a.section_index, 5);
    assert_eq!(a.section, Section::Queue);
    a.apply(Action::Down);
    assert_eq!(a.section_index, 0);
    for _ in 0..6 {
        a.apply(Action::Down);
    }
    assert_eq!(a.section_index, 0);
    assert_eq!(a.section, Section::Likes);
    a.apply(Action::Bottom);
    assert_eq!(a.section, Section::Queue);
    a.apply(Action::Top);
    assert_eq!(a.section, Section::Likes);
}

#[test]
fn activate_sidebar_focuses_list() {
    let mut a = app_with_mix();
    a.apply(Action::FocusSidebar);
    a.apply(Action::Down);
    a.apply(Action::Activate);
    assert_eq!(a.focus, Focus::List);
    assert_eq!(a.status, "Section : ☰  Playlists");
}

#[test]
fn play_sets_status_and_position() {
    let mut a = app_with_mix();
    a.playback.position_ms = 1234;
    a.play(track(Platform::Mixcloud, "mix"));
    assert_eq!(a.status, "▶ artiste — mix");
    assert_eq!(a.playback.position_ms, 0);
    assert!(a.playback.playing);
}

#[test]
fn next_and_prev_play_neighbours() {
    let mut a = app_with_mix();
    a.apply(Action::Next);
    assert_eq!(a.list_index, 1);
    assert_eq!(a.playback.current.as_ref().unwrap().title, "mc1");
    a.apply(Action::Next);
    a.apply(Action::Next);
    assert_eq!(a.list_index, 2);
    assert_eq!(a.playback.current.as_ref().unwrap().title, "sc2");
    a.apply(Action::Prev);
    assert_eq!(a.playback.current.as_ref().unwrap().title, "mc1");
}

#[test]
fn down_then_up_returns() {
    let mut a = app_with_mix();
    a.apply(Action::Down);
    assert_eq!(a.list_index, 1);
    a.apply(Action::Up);
    assert_eq!(a.list_index, 0);
}

#[test]
fn empty_list_navigation_is_inert() {
    let mut a = App::new();
    a.apply(Action::Down);
    a.apply(Action::Bottom);
    assert_eq!(a.list_index, 0);
    a.apply(Action::Activate);
    a.apply(Action::PlayPause);
    a.apply(Action::Next);
    assert!(a.playback.current.is_none());
    assert!(!a.playback.playing);
    assert!(a.selected_track().is_none());
}

#[test]
fn volume_down_floor_and_status() {
    let mut a = App::new();
    a.apply(Action::VolumeDown);
    assert_eq!(a.playback.volume, 75);
    assert_eq!(a.status, "Volume : 75%");
    for _ in 0..20 {
        a.apply(Action::VolumeDown);
    }
    assert_eq!(a.playback.volume, 0);
    assert_eq!(a.status, "Volume : 0%");
    a.apply(Action::VolumeUp);
    assert_eq!(a.playback.volume, 5);
}

#[test]
fn quit_is_sticky() {
    let mut a = app_with_mix();
    a.apply(Action::Quit);
    assert!(a.should_quit);
    a.apply(Action::Down);
    assert!(a.should_quit);
}

#[test]
fn labels() {
    assert_eq!(Section::Likes.label(), "♥  Likes");
    assert_eq!(Section::Queue.label(), "▤  File");
    assert_eq!(Filter::All.label(), "Tout");
    assert_eq!(Filter::Only(Platform::SoundCloud).label(), "SoundCloud");
    assert_eq!(Section::at(3), Section::Search);
    assert_eq!(Section::all()[4], Section::History);
}

fn app_with_pages() -> App {
    let mut a = app_with_mix();
    for t in a.tracks.iter_mut() {
        t.permalink = format!("https://x/{}", t.title);
    }
    a
}

#[test]
fn apply_reports_effects() {
    let mut a = app_with_pages();
    // Nothing playing: play/pause starts the selection.
    assert_eq!(a.apply(Action::PlayPause), Some(Effect::Play("https://x/sc1".to_string())));
    // Then it toggles the current track.
    assert_eq!(a.apply(Action::PlayPause), Some(Effect::Toggle));
    assert!(!a.playback.playing);
    // Navigation and filters leave the engine alone.
    assert_eq!(a.apply(Action::Down), None);
    assert_eq!(a.apply(Action::ToggleFocus), None);
    assert_eq!(a.apply(Action::FilterAll), None);
    // Activating the sidebar moves the focus and asks for the section.
    assert_eq!(a.apply(Action::Activate), Some(Effect::Load(Section::Likes)));
    assert_eq!(a.focus, Focus::List);
    // Next plays the following track.
    assert_eq!(a.apply(Action::Next), Some(Effect::Play("https://x/mc1".to_string())));
    assert_eq!(a.playback.current.as_ref().unwrap().permalink, "https://x/mc1");
    // Volume changes carry the new volume, capped at 100.
    assert_eq!(a.apply(Action::VolumeUp), Some(Effect::SetVolume(85)));
    for _ in 0..5 {
        a.apply(Action::VolumeUp);
    }
    assert_eq!(a.apply(Action::VolumeUp), Some(Effect::SetVolume(100)));
    assert_eq!(a.apply(Action::Quit), None);
}

#[test]
fn empty_list_has_no_effect() {
    let mut a = App::new();
    assert_eq!(a.apply(Action::PlayPause), None);
    assert_eq!(a.apply(Action::Next), None);
    assert_eq!(a.apply(Action::Activate), None);
    assert!(a.playback.current.is_none());
}

#[test]
fn stop_clears_the_current_track() {
    let mut a = app_with_pages();
    a.apply(Action::Activate);
    assert!(a.playback.playing);
    assert_eq!(a.apply(Action::Stop), Some(Effect::Stop));
    assert!(a.playback.current.is_none());
    assert!(!a.playback.playing);
    assert_eq!(a.playback.position_ms, 0);
}

#[test]
fn sections_fill_from_public_lists() {
    assert_eq!(sources_of(Section::Likes), vec![Source::SoundCloudLikes, Source::MixcloudFavorites]);
    assert_eq!(sources_of(Section::History), vec![Source::MixcloudListens]);
    assert!(sources_of(Section::Queue).is_empty());
    let sc = vec![track(Platform::SoundCloud, "s1"), track(Platform::SoundCloud, "s2"), track(Platform::SoundCloud, "s3")];
    let mc = vec![track(Platform::Mixcloud, "m1")];
    let merged: Vec<String> = interleave(&sc, &mc).into_iter().map(|t| t.title).collect();
    assert_eq!(merged, vec!["s1", "m1", "s2", "s3"]);
    let mut a = app_with_mix();
    a.apply(Action::Bottom);
    a.set_tracks(interleave(&mc, &sc));
    assert_eq!(a.tracks.len(), 4);
    assert_eq!(a.list_index, 0);
    assert_eq!(a.tracks[0].title, "m1");
}
