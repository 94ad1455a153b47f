//! Desktop media-key integration: the commands external controls send, and
//! the playback status reported to them.
use vstd::prelude::*;
use crate::app::{Action, Effect};

verus! {

/// A command from an external media control (key, panel, MPRIS client).
#[derive(Debug, Clone, Copy, PartialEq, Eq, Structural)]
pub enum MediaCommand {
    PlayPause,
    Play,
    Pause,
    Next,
    Prev,
    Stop,
    SetVolume(u8),
    Quit,
}

/// Playback status as reported to the desktop.
#[derive(Debug, Clone, Copy, PartialEq, Eq, Structural)]
pub enum MediaStatus {
    Playing,
    Paused,
    Stopped,
}

/// Playing while audio flows; paused while loading or while a track is
/// loaded; stopped otherwise.
pub open spec fn status_of(playing: bool, loading: bool, has_track: bool) -> MediaStatus {
    if playing {
        MediaStatus::Playing
    } else if loading || has_track {
        MediaStatus::Paused
    } else {
        MediaStatus::Stopped
    }
}

/// Status reported to the desktop for the engine's state.
pub fn playback_status(playing: bool, loading: bool, has_track: bool) -> (s: MediaStatus)
    ensures
        s == status_of(playing, loading, has_track),
{
    if playing {
        MediaStatus::Playing
    } else if loading || has_track {
        MediaStatus::Paused
    } else {
        MediaStatus::Stopped
    }
}

/// How the main loop handles a media command.
#[derive(Debug, Clone, PartialEq, Eq)]
pub enum MediaRoute {
    /// Apply an intent, as the matching key does.
    Apply(Action),
    /// Hand an effect straight to the audio engine.
    Engine(Effect),
    /// Nothing to do.
    Ignore,
}

/// Media commands are routed like the keys: play/pause, next, previous and
/// quit are intents (play and pause only when they change something); stop
/// and the volume (capped at 100) go to the engine.
pub open spec fn route_of(cmd: MediaCommand, playing: bool) -> MediaRoute {
    match cmd {
        MediaCommand::PlayPause => MediaRoute::Apply(Action::PlayPause),
        MediaCommand::Play => if playing {
            MediaRoute::Ignore
        } else {
            MediaRoute::Apply(Action::PlayPause)
        },
        MediaCommand::Pause => if playing {
            MediaRoute::Apply(Action::PlayPause)
        } else {
            MediaRoute::Ignore
        },
        MediaCommand::Next => MediaRoute::Apply(Action::Next),
        MediaCommand::Prev => MediaRoute::Apply(Action::Prev),
        MediaCommand::Stop => MediaRoute::Engine(Effect::Stop),
        MediaCommand::SetVolume(v) => MediaRoute::Engine(
            Effect::SetVolume(
                if v < 100 {
                    v
                } else {
                    100
                },
            ),
        ),
        MediaCommand::Quit => MediaRoute::Apply(Action::Quit),
    }
}

/// Routes a media command, given whether a track is playing.
pub fn route(cmd: MediaCommand, playing: bool) -> (r: MediaRoute)
    ensures
        r == route_of(cmd, playing),
{
    match cmd {
        MediaCommand::PlayPause => MediaRoute::Apply(Action::PlayPause),
        MediaCommand::Play => if playing {
            MediaRoute::Ignore
        } else {
            MediaRoute::Apply(Action::PlayPause)
        },
        MediaCommand::Pause => if playing {
            MediaRoute::Apply(Action::PlayPause)
        } else {
            MediaRoute::Ignore
        },
        MediaCommand::Next => MediaRoute::Apply(Action::Next),
        MediaCommand::Prev => MediaRoute::Apply(Action::Prev),
        MediaCommand::Stop => MediaRoute::Engine(Effect::Stop),
        MediaCommand::SetVolume(v) => MediaRoute::Engine(
            Effect::SetVolume(
                if v < 100 {
                    v
                } else {
                    100
                },
            ),
        ),
        MediaCommand::Quit => MediaRoute::Apply(Action::Quit),
    }
}

} // verus!
