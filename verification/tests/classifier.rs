use join_leave_notifier::parser::{classify_line, DomainEvent, LineError};

fn line(message: &str) -> Vec<u8> {
    let mut l = b"2022.07.27 15:26:35 Log        -  ".to_vec();
    l.extend_from_slice(message.as_bytes());
    l
}

#[test]
fn join_with_user_id_parenthetical() {
    let l = line("[Behaviour] OnPlayerJoined SpiralP (usr_1234-abcd)");
    let evs = classify_line(&l).unwrap();
    assert_eq!(evs, vec![DomainEvent::Join(b"SpiralP".to_vec())]);
}

#[test]
fn join_without_parenthetical() {
    let l = line("[Behaviour] OnPlayerJoined SpiralP");
    let evs = classify_line(&l).unwrap();
    assert_eq!(evs, vec![DomainEvent::Join(b"SpiralP".to_vec())]);
}

#[test]
fn join_complete_remainder_is_verbatim() {
    let l = line("[Behaviour] OnPlayerJoinComplete SpiralP");
    let evs = classify_line(&l).unwrap();
    assert_eq!(evs, vec![DomainEvent::Join(b"SpiralP".to_vec())]);
}

#[test]
fn leave_with_user_id_parenthetical() {
    let l = line("[Behaviour] OnPlayerLeft Somebody Else (usr_9)");
    let evs = classify_line(&l).unwrap();
    assert_eq!(evs, vec![DomainEvent::Leave(b"Somebody Else".to_vec())]);
}

#[test]
fn unregistering_remainder_is_verbatim() {
    let l = line("[Behaviour] Unregistering Somebody (usr_9)");
    let evs = classify_line(&l).unwrap();
    assert_eq!(evs, vec![DomainEvent::Leave(b"Somebody (usr_9)".to_vec())]);
}

#[test]
fn entering_world_changes_world_state() {
    let l = line("[Behaviour] Entering world");
    let evs = classify_line(&l).unwrap();
    assert_eq!(evs, vec![DomainEvent::WorldStateChanged]);
}

#[test]
fn finished_entering_world_changes_world_state() {
    let l = line("[Behaviour] Finished entering world.");
    let evs = classify_line(&l).unwrap();
    assert_eq!(evs, vec![DomainEvent::WorldStateChanged]);
}

#[test]
fn left_room_yields_room_left_then_world_state() {
    let l = line("[Behaviour] OnLeftRoom");
    let evs = classify_line(&l).unwrap();
    assert_eq!(evs, vec![DomainEvent::RoomLeft, DomainEvent::WorldStateChanged]);
}

#[test]
fn application_quit_prefix_changes_world_state() {
    let l = line("VRCApplication: OnApplicationQuit at 2022.07.27");
    let evs = classify_line(&l).unwrap();
    assert_eq!(evs, vec![DomainEvent::WorldStateChanged]);
}

#[test]
fn line_without_separator_is_rejected() {
    let r = classify_line(b"no separator here");
    assert_eq!(r, Err(LineError::MissingSeparator));
}

#[test]
fn empty_line_is_rejected() {
    let r = classify_line(b"");
    assert_eq!(r, Err(LineError::MissingSeparator));
}

#[test]
fn unmatched_message_yields_nothing() {
    let l = line("[Behaviour] Something entirely different");
    let evs = classify_line(&l).unwrap();
    assert_eq!(evs, Vec::<DomainEvent>::new());
}

#[test]
fn message_is_trimmed_before_matching() {
    let l = b"ts -    [Behaviour] Entering world   ".to_vec();
    let evs = classify_line(&l).unwrap();
    assert_eq!(evs, vec![DomainEvent::WorldStateChanged]);
}

#[test]
fn exact_markers_do_not_match_as_prefixes() {
    // A message that merely extends an exact marker matches nothing.
    let l = line("[Behaviour] Entering worldliness");
    let evs = classify_line(&l).unwrap();
    assert_eq!(evs, Vec::<DomainEvent>::new());
}
