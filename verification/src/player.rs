//! Decisions of the playback worker: what each command does while a track
//! plays or waits, and the playback position. The worker thread performs
//! the decoding and the audio output and asks these functions what to do.
use vstd::prelude::*;

verus! {

/// Commands sent to the playback worker.
#[derive(Debug, Clone, PartialEq, Eq)]
pub enum PlayerCommand {
    /// URL or permalink to resolve, then play.
    Play(String),
    Pause,
    Resume,
    Stop,
    Quit,
}

/// What the decoding loop does after looking at its command queue.
#[derive(Debug, Clone, PartialEq, Eq)]
pub enum Reaction {
    /// Decode and play the next packet.
    Decode,
    /// Cut the sound, clear the visualisers and wait for the next command.
    Pause,
    /// Resume decoding.
    Resume,
    /// Reset position, duration and current track; the track is over.
    Stop,
    /// Switch at once to another URL.
    Switch(String),
    /// Leave the worker.
    Quit,
}

/// The reaction to the next queued command (`None`: the queue is empty
/// while playing, or the channel is closed while paused).
pub open spec fn reaction(paused: bool, cmd: Option<PlayerCommand>) -> Reaction {
    match cmd {
        Some(PlayerCommand::Pause) => Reaction::Pause,
        Some(PlayerCommand::Resume) => Reaction::Resume,
        Some(PlayerCommand::Stop) => Reaction::Stop,
        Some(PlayerCommand::Play(u)) => Reaction::Switch(u),
        Some(PlayerCommand::Quit) => Reaction::Quit,
        None => if paused {
            Reaction::Quit
        } else {
            Reaction::Decode
        },
    }
}

/// Decides what the decoding loop does with a command. While paused the
/// worker blocks on the queue, so an absent command means the sender is
/// gone.
pub fn react(paused: bool, cmd: Option<PlayerCommand>) -> (r: Reaction)
    ensures
        r == reaction(paused, cmd),
{
    match cmd {
        Some(PlayerCommand::Pause) => Reaction::Pause,
        Some(PlayerCommand::Resume) => Reaction::Resume,
        Some(PlayerCommand::Stop) => Reaction::Stop,
        Some(PlayerCommand::Play(u)) => Reaction::Switch(u),
        Some(PlayerCommand::Quit) => Reaction::Quit,
        None => if paused {
            Reaction::Quit
        } else {
            Reaction::Decode
        },
    }
}

/// Whether the loop is paused after a reaction.
pub open spec fn paused_after(paused: bool, r: Reaction) -> bool {
    match r {
        Reaction::Pause => true,
        Reaction::Resume => false,
        _ => paused,
    }
}

/// Whether the loop goes on reading commands before decoding: only while
/// paused (a reaction that leaves the loop ends it anyway).
pub fn keeps_waiting(paused: bool, r: &Reaction) -> (b: bool)
    ensures
        b == paused_after(paused, *r),
{
    match r {
        Reaction::Pause => true,
        Reaction::Resume => false,
        _ => paused,
    }
}

/// What the idle worker (no track playing) does with a command: only
/// `Play` and `Quit` matter.
#[derive(Debug, Clone, PartialEq, Eq)]
pub enum IdleReaction {
    Play(String),
    Quit,
    Ignore,
}

pub open spec fn idle_reaction(cmd: PlayerCommand) -> IdleReaction {
    match cmd {
        PlayerCommand::Play(u) => IdleReaction::Play(u),
        PlayerCommand::Quit => IdleReaction::Quit,
        _ => IdleReaction::Ignore,
    }
}

/// Decides what the idle worker does with a command.
pub fn idle_react(cmd: PlayerCommand) -> (r: IdleReaction)
    ensures
        r == idle_reaction(cmd),
{
    match cmd {
        PlayerCommand::Play(u) => IdleReaction::Play(u),
        PlayerCommand::Quit => IdleReaction::Quit,
        _ => IdleReaction::Ignore,
    }
}

/// The command that toggles playback: pause while playing, else resume.
pub fn toggle_command(playing: bool) -> (c: PlayerCommand)
    ensures
        c == (if playing {
            PlayerCommand::Pause
        } else {
            PlayerCommand::Resume
        }),
{
    if playing {
        PlayerCommand::Pause
    } else {
        PlayerCommand::Resume
    }
}

/// Playback position in milliseconds after `frames` frames at `rate` Hz.
pub fn position_ms(frames: u64, rate: u32) -> (r: u64)
    requires
        rate > 0,
        frames * 1000 <= u64::MAX,
    ensures
        r == (frames * 1000) / (rate as int),
{
    frames * 1000 / (rate as u64)
}

/// Pausing then resuming leaves the loop decoding again, whatever its
/// state before.
pub proof fn law_pause_resume(paused: bool)
    ensures
        !paused_after(
            paused_after(paused, reaction(paused, Some(PlayerCommand::Pause))),
            reaction(true, Some(PlayerCommand::Resume)),
        ),
        reaction(false, None) == Reaction::Decode,
{
}

/// A closed channel while paused ends the worker; `Stop` and `Quit` are
/// obeyed in any state.
pub proof fn law_commands_obeyed(paused: bool)
    ensures
        reaction(true, None) == Reaction::Quit,
        reaction(paused, Some(PlayerCommand::Stop)) == Reaction::Stop,
        reaction(paused, Some(PlayerCommand::Quit)) == Reaction::Quit,
{
}

} // verus!
