use join_leave_notifier::audio::AudioEvent;
use join_leave_notifier::notifier::{format_batch, group, sanitize, MessageEvent, PendingEvents};

fn join(name: &str) -> MessageEvent {
    MessageEvent::Join(name.as_bytes().to_vec())
}

fn leave(name: &str) -> MessageEvent {
    MessageEvent::Leave(name.as_bytes().to_vec())
}

#[test]
fn duplicate_joins_collapse_within_one_window() {
    let mut pending = PendingEvents::new();
    assert!(pending.record(join("X")));
    assert!(!pending.record(join("Y")));
    assert!(!pending.record(join("X")));
    let batch = pending.drain();
    let (notices, cues) = format_batch(&batch);
    assert_eq!(notices.len(), 1);
    let (title, body) = &notices[0];
    assert_eq!(title, &b"2 players joined".to_vec());
    assert_eq!(
        body,
        &Some(vec![b"X joined".to_vec(), b"Y joined".to_vec()])
    );
    assert_eq!(cues, vec![AudioEvent::Join]);
}

#[test]
fn large_leave_burst_suppresses_the_name_list() {
    let mut pending = PendingEvents::new();
    let names = ["A", "B", "C", "D", "E", "F", "G", "H"];
    for n in names {
        pending.record(leave(n));
    }
    let batch = pending.drain();
    let (notices, cues) = format_batch(&batch);
    assert_eq!(notices.len(), 1);
    let (title, body) = &notices[0];
    assert_eq!(title, &b"8 players left".to_vec());
    assert_eq!(body, &None);
    assert_eq!(cues, vec![AudioEvent::Leave]);
}

#[test]
fn single_join_keeps_its_own_line_as_title() {
    let mut pending = PendingEvents::new();
    pending.record(join("X"));
    let batch = pending.drain();
    let (notices, cues) = format_batch(&batch);
    assert_eq!(notices.len(), 1);
    let (title, body) = &notices[0];
    assert_eq!(title, &b"X joined".to_vec());
    assert_eq!(body, &None);
    assert_eq!(cues, vec![AudioEvent::Join]);
}

#[test]
fn same_name_join_and_leave_are_distinct_events() {
    let mut pending = PendingEvents::new();
    pending.record(join("X"));
    pending.record(leave("X"));
    let batch = pending.drain();
    assert_eq!(batch.len(), 2);
    let (notices, cues) = format_batch(&batch);
    assert_eq!(notices.len(), 2);
    assert_eq!(notices[0].0, b"X joined".to_vec());
    assert_eq!(notices[1].0, b"X left".to_vec());
    assert_eq!(cues, vec![AudioEvent::Join, AudioEvent::Leave]);
}

#[test]
fn drained_set_is_empty_and_timer_rearms() {
    let mut pending = PendingEvents::new();
    assert!(pending.record(join("X")));
    let _ = pending.drain();
    assert!(pending.record(join("X")));
}

#[test]
fn six_names_still_get_a_body_seven_do_not() {
    let six: Vec<Vec<u8>> = (0..6).map(|i| format!("P{} joined", i).into_bytes()).collect();
    let (title, body) = group(six.clone(), b"players joined");
    assert_eq!(title, b"6 players joined".to_vec());
    assert_eq!(body, Some(six));

    let seven: Vec<Vec<u8>> = (0..7).map(|i| format!("P{} joined", i).into_bytes()).collect();
    let (title, body) = group(seven, b"players joined");
    assert_eq!(title, b"7 players joined".to_vec());
    assert_eq!(body, None);
}

#[test]
fn count_titles_render_multi_digit_counts() {
    let many: Vec<Vec<u8>> = (0..12).map(|i| format!("P{} left", i).into_bytes()).collect();
    let (title, body) = group(many, b"players left");
    assert_eq!(title, b"12 players left".to_vec());
    assert_eq!(body, None);
}

#[test]
fn event_text_renders_name_and_kind() {
    assert_eq!(join("SpiralP").text(), b"SpiralP joined".to_vec());
    assert_eq!(leave("SpiralP").text(), b"SpiralP left".to_vec());
}

#[test]
fn sanitize_transliterates_to_ascii() {
    // "café" in UTF-8; the accent collapses to plain ASCII.
    assert_eq!(sanitize(b"caf\xc3\xa9 joined"), b"cafe joined".to_vec());
    // "Æneid" begins with a two-byte ligature.
    assert_eq!(sanitize(b"\xc3\x86neid"), b"AEneid".to_vec());
}

#[test]
fn sanitize_keeps_ascii_unchanged() {
    assert_eq!(sanitize(b"3 players joined"), b"3 players joined".to_vec());
    assert_eq!(sanitize(b""), b"".to_vec());
}
