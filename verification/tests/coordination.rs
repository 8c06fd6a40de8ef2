use join_leave_notifier::audio::{audio_step, handle_event, AudioAction, AudioEvent, AudioPoll, SoundCue};
use join_leave_notifier::discovery::DiscoveryError;
use join_leave_notifier::runtime::{event_stream_step, runtime_should_stop, RuntimeInput, StreamAction};
use join_leave_notifier::shutdown::ShutdownCoordinator;
use join_leave_notifier::watcher::{LogWatcher, WatchAction};

#[test]
fn watcher_starts_switches_stops() {
    let mut w = LogWatcher::new();
    let a = w.step(Some(b"output_log_1.txt".to_vec()));
    assert_eq!(a, WatchAction::Start(b"output_log_1.txt".to_vec()));
    let a = w.step(Some(b"output_log_2.txt".to_vec()));
    assert_eq!(a, WatchAction::Switch(b"output_log_2.txt".to_vec()));
    let a = w.step(None);
    assert_eq!(a, WatchAction::Stop);
    let a = w.step(None);
    assert_eq!(a, WatchAction::Keep);
}

#[test]
fn rediscovering_the_same_path_never_restarts() {
    let mut w = LogWatcher::new();
    let path = b"output_log_1.txt".to_vec();
    assert_eq!(w.step(Some(path.clone())), WatchAction::Start(path.clone()));
    assert_eq!(w.step(Some(path.clone())), WatchAction::Keep);
    assert_eq!(w.step(Some(path.clone())), WatchAction::Keep);
}

#[test]
fn failed_discovery_tick_changes_nothing() {
    let mut w = LogWatcher::new();
    let path = b"output_log_1.txt".to_vec();
    assert_eq!(
        w.step_checked(Ok(Some(path.clone()))),
        WatchAction::Start(path.clone())
    );
    assert_eq!(
        w.step_checked(Err(DiscoveryError::DirectoryUnavailable)),
        WatchAction::Keep
    );
    // The tailer is still considered current afterwards.
    assert_eq!(w.step_checked(Ok(Some(path))), WatchAction::Keep);
}

#[test]
fn shutdown_drains_once_every_worker_exits() {
    let mut c = ShutdownCoordinator::new();
    c.register_worker();
    c.register_worker();
    c.register_worker();
    assert!(!c.drained());
    c.signal();
    assert!(!c.drained());
    // Three workers and the root all release their handles.
    c.worker_exit();
    c.worker_exit();
    c.worker_exit();
    assert!(!c.drained());
    c.worker_exit();
    assert!(c.drained());
}

#[test]
fn redundant_shutdown_broadcasts_are_harmless() {
    let mut c = ShutdownCoordinator::new();
    c.register_worker();
    c.signal();
    c.signal();
    c.worker_exit();
    c.worker_exit();
    assert!(c.drained());
}

#[test]
fn audio_events_select_their_sounds() {
    assert_eq!(handle_event(&AudioEvent::Join), SoundCue::JoinTone);
    assert_eq!(handle_event(&AudioEvent::Leave), SoundCue::LeaveTone);
}

#[test]
fn audio_worker_plays_waits_and_stops() {
    assert_eq!(
        audio_step(&AudioPoll::Received(AudioEvent::Join), false),
        AudioAction::Play(SoundCue::JoinTone)
    );
    assert_eq!(
        audio_step(&AudioPoll::Received(AudioEvent::Leave), true),
        AudioAction::Play(SoundCue::LeaveTone)
    );
    assert_eq!(audio_step(&AudioPoll::TimedOut, false), AudioAction::Idle);
    assert_eq!(audio_step(&AudioPoll::TimedOut, true), AudioAction::Stop);
    assert_eq!(audio_step(&AudioPoll::Disconnected, false), AudioAction::Stop);
}

#[test]
fn runtime_task_stops_on_shutdown_quit_or_closed_stream() {
    assert!(runtime_should_stop(&RuntimeInput::ShutdownSignaled));
    assert!(runtime_should_stop(&RuntimeInput::EventReceived(true)));
    assert!(!runtime_should_stop(&RuntimeInput::EventReceived(false)));
    assert!(runtime_should_stop(&RuntimeInput::ChannelClosed));
}

#[test]
fn native_thread_checks_shutdown_before_quit() {
    assert_eq!(event_stream_step(true, false), StreamAction::Teardown);
    assert_eq!(event_stream_step(true, true), StreamAction::Teardown);
    assert_eq!(
        event_stream_step(false, true),
        StreamAction::AcknowledgeAndTeardown
    );
    assert_eq!(event_stream_step(false, false), StreamAction::Sleep);
}
