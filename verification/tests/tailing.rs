use join_leave_notifier::parser::{DomainEvent, LogParser};
use join_leave_notifier::tail::TailCursor;

#[test]
fn partial_line_is_held_until_completed() {
    let mut c = TailCursor::new();
    let first = c.feed(b"abc");
    assert_eq!(first, Vec::<Vec<u8>>::new());
    let second = c.feed(b"def\n");
    assert_eq!(second, vec![b"abcdef".to_vec()]);
}

#[test]
fn completed_lines_are_never_reemitted() {
    let mut c = TailCursor::new();
    let first = c.feed(b"one\ntwo");
    assert_eq!(first, vec![b"one".to_vec()]);
    let second = c.feed(b"-more\nthree\n");
    assert_eq!(second, vec![b"two-more".to_vec(), b"three".to_vec()]);
    let third = c.feed(b"");
    assert_eq!(third, Vec::<Vec<u8>>::new());
}

#[test]
fn carriage_return_before_line_feed_is_dropped() {
    let mut c = TailCursor::new();
    let lines = c.feed(b"alpha\r\nbeta\n");
    assert_eq!(lines, vec![b"alpha".to_vec(), b"beta".to_vec()]);
}

#[test]
fn empty_lines_are_emitted_by_the_cursor() {
    let mut c = TailCursor::new();
    let lines = c.feed(b"\n\nx\n");
    assert_eq!(lines, vec![b"".to_vec(), b"".to_vec(), b"x".to_vec()]);
}

#[test]
fn parser_processes_chunks_incrementally() {
    let mut p = LogParser::new(b"output_log_test.txt");
    let evs = p.process_chunk(b"ts - [Behaviour] OnPlayerJoined A");
    assert_eq!(evs, Vec::<DomainEvent>::new());
    let evs = p.process_chunk(b"lice (usr_1)\nts - [Behaviour] OnPlayerLeft Bob\n");
    assert_eq!(
        evs,
        vec![
            DomainEvent::Join(b"Alice".to_vec()),
            DomainEvent::Leave(b"Bob".to_vec()),
        ]
    );
}

#[test]
fn parser_skips_empty_and_malformed_lines() {
    let mut p = LogParser::new(b"output_log_test.txt");
    let evs = p.process_chunk(b"\njunk without separator\nts - [Behaviour] OnLeftRoom\n");
    assert_eq!(
        evs,
        vec![DomainEvent::RoomLeft, DomainEvent::WorldStateChanged]
    );
}
