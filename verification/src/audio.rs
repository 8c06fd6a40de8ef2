//! Decisions of the audio worker.
//!
//! The audio device, its output stream and the thread that blocks on the
//! event channel live in the surrounding shell; this module decides which
//! sound a domain event asks for, and what the worker's poll loop does next
//! on each outcome of its one-second wait.
use vstd::prelude::*;

verus! {

/// A sound-worthy aggregate event: at least one player joined, or at least
/// one left, within one debounce window.
#[derive(Debug, Clone, PartialEq, Eq, Hash, Structural)]
pub enum AudioEvent {
    Join,
    Leave,
}

/// Which of the two bundled sounds to play.
#[derive(Debug, Clone, Copy, PartialEq, Eq, Structural)]
pub enum SoundCue {
    JoinTone,
    LeaveTone,
}

/// One outcome of the audio worker's bounded wait on its event channel.
#[derive(Debug, Clone, PartialEq, Eq, Structural)]
pub enum AudioPoll {
    Received(AudioEvent),
    TimedOut,
    Disconnected,
}

/// What the audio worker does next.
#[derive(Debug, Clone, PartialEq, Eq, Structural)]
pub enum AudioAction {
    Play(SoundCue),
    Idle,
    Stop,
}

/// The sound that belongs to an event.
pub open spec fn cue_for(event: AudioEvent) -> SoundCue {
    match event {
        AudioEvent::Join => SoundCue::JoinTone,
        AudioEvent::Leave => SoundCue::LeaveTone,
    }
}

/// Chooses the sound for one aggregate event.
pub fn handle_event(event: &AudioEvent) -> (cue: SoundCue)
    ensures
        cue == cue_for(*event),
{
    match event {
        AudioEvent::Join => SoundCue::JoinTone,
        AudioEvent::Leave => SoundCue::LeaveTone,
    }
}

/// What one poll outcome demands of the worker.
pub open spec fn audio_step_spec(poll: AudioPoll, shutdown_seen: bool) -> AudioAction {
    match poll {
        AudioPoll::Received(event) => AudioAction::Play(cue_for(event)),
        AudioPoll::TimedOut => if shutdown_seen {
            AudioAction::Stop
        } else {
            AudioAction::Idle
        },
        AudioPoll::Disconnected => AudioAction::Stop,
    }
}

/// Decides the audio worker's next move: play what was received, keep
/// waiting after a quiet second unless shutdown was signaled, and stop when
/// the producers are gone or shutdown is on.
pub fn audio_step(poll: &AudioPoll, shutdown_seen: bool) -> (action: AudioAction)
    ensures
        action == audio_step_spec(*poll, shutdown_seen),
{
    match poll {
        AudioPoll::Received(event) => AudioAction::Play(handle_event(event)),
        AudioPoll::TimedOut => {
            if shutdown_seen {
                AudioAction::Stop
            } else {
                AudioAction::Idle
            }
        },
        AudioPoll::Disconnected => AudioAction::Stop,
    }
}

} // verus!
