//! The line classifier: one raw log line maps to zero or more domain
//! events.
//!
//! A line is split at its first `-` separator; the part after it, with
//! surrounding ASCII whitespace trimmed, is the message. The message is
//! matched against a fixed set of markers, in priority order: three exact
//! markers, then four prefixes. A player name following a join or leave
//! prefix may carry a parenthesized user id, which is cut off. A line
//! without a separator is a classification failure that the caller logs and
//! skips.
use vstd::prelude::*;

use crate::tail::TailCursor;
use crate::tail::lines_of;
use crate::text::find_from;
use crate::text::has_prefix;
use crate::text::lemma_find_from_of_first;
use crate::text::lemma_find_from_of_none;
use crate::text::occurs_at;
use crate::text::trim_spec;
use crate::text::find_byte;
use crate::text::find_sub;
use crate::text::bytes_eq;
use crate::text::starts_with;
use crate::text::slice_to_vec;
use crate::text::subrange_vec;
use crate::text::trim_ascii;

verus! {

/// The byte that separates a line's timestamp-and-level part from its
/// message.
pub const SEPARATOR: u8 = 45;

/// The bytes of `"[Behaviour] Entering world"`.
pub open spec fn entering_world_msg() -> Seq<u8> {
    seq![91u8, 66, 101, 104, 97, 118, 105, 111, 117, 114, 93, 32, 69, 110, 116, 101, 114, 105, 110, 103, 32, 119, 111, 114, 108, 100]
}

fn entering_world_marker() -> (r: [u8; 26])
    ensures
        r@ == entering_world_msg(),
{
    let r: [u8; 26] = [91u8, 66, 101, 104, 97, 118, 105, 111, 117, 114, 93, 32, 69, 110, 116, 101, 114, 105, 110, 103, 32, 119, 111, 114, 108, 100];
    assert(r@ =~= entering_world_msg());
    r
}

/// The bytes of `"[Behaviour] Finished entering world."`.
pub open spec fn finished_entering_world_msg() -> Seq<u8> {
    seq![91u8, 66, 101, 104, 97, 118, 105, 111, 117, 114, 93, 32, 70, 105, 110, 105, 115, 104, 101, 100, 32, 101, 110, 116, 101, 114, 105, 110, 103, 32, 119, 111, 114, 108, 100, 46]
}

fn finished_entering_world_marker() -> (r: [u8; 36])
    ensures
        r@ == finished_entering_world_msg(),
{
    let r: [u8; 36] = [91u8, 66, 101, 104, 97, 118, 105, 111, 117, 114, 93, 32, 70, 105, 110, 105, 115, 104, 101, 100, 32, 101, 110, 116, 101, 114, 105, 110, 103, 32, 119, 111, 114, 108, 100, 46];
    assert(r@ =~= finished_entering_world_msg());
    r
}

/// The bytes of `"[Behaviour] OnLeftRoom"`.
pub open spec fn on_left_room_msg() -> Seq<u8> {
    seq![91u8, 66, 101, 104, 97, 118, 105, 111, 117, 114, 93, 32, 79, 110, 76, 101, 102, 116, 82, 111, 111, 109]
}

fn on_left_room_marker() -> (r: [u8; 22])
    ensures
        r@ == on_left_room_msg(),
{
    let r: [u8; 22] = [91u8, 66, 101, 104, 97, 118, 105, 111, 117, 114, 93, 32, 79, 110, 76, 101, 102, 116, 82, 111, 111, 109];
    assert(r@ =~= on_left_room_msg());
    r
}

/// The bytes of `"VRCApplication: OnApplicationQuit at "`.
pub open spec fn application_quit_prefix() -> Seq<u8> {
    seq![86u8, 82, 67, 65, 112, 112, 108, 105, 99, 97, 116, 105, 111, 110, 58, 32, 79, 110, 65, 112, 112, 108, 105, 99, 97, 116, 105, 111, 110, 81, 117, 105, 116, 32, 97, 116, 32]
}

fn application_quit_marker() -> (r: [u8; 37])
    ensures
        r@ == application_quit_prefix(),
{
    let r: [u8; 37] = [86u8, 82, 67, 65, 112, 112, 108, 105, 99, 97, 116, 105, 111, 110, 58, 32, 79, 110, 65, 112, 112, 108, 105, 99, 97, 116, 105, 111, 110, 81, 117, 105, 116, 32, 97, 116, 32];
    assert(r@ =~= application_quit_prefix());
    r
}

/// The bytes of `"[Behaviour] OnPlayerJoined "`.
pub open spec fn player_joined_prefix() -> Seq<u8> {
    seq![91u8, 66, 101, 104, 97, 118, 105, 111, 117, 114, 93, 32, 79, 110, 80, 108, 97, 121, 101, 114, 74, 111, 105, 110, 101, 100, 32]
}

fn player_joined_marker() -> (r: [u8; 27])
    ensures
        r@ == player_joined_prefix(),
{
    let r: [u8; 27] = [91u8, 66, 101, 104, 97, 118, 105, 111, 117, 114, 93, 32, 79, 110, 80, 108, 97, 121, 101, 114, 74, 111, 105, 110, 101, 100, 32];
    assert(r@ =~= player_joined_prefix());
    r
}

/// The bytes of `"[Behaviour] OnPlayerJoinComplete "`.
pub open spec fn player_join_complete_prefix() -> Seq<u8> {
    seq![91u8, 66, 101, 104, 97, 118, 105, 111, 117, 114, 93, 32, 79, 110, 80, 108, 97, 121, 101, 114, 74, 111, 105, 110, 67, 111, 109, 112, 108, 101, 116, 101, 32]
}

fn player_join_complete_marker() -> (r: [u8; 33])
    ensures
        r@ == player_join_complete_prefix(),
{
    let r: [u8; 33] = [91u8, 66, 101, 104, 97, 118, 105, 111, 117, 114, 93, 32, 79, 110, 80, 108, 97, 121, 101, 114, 74, 111, 105, 110, 67, 111, 109, 112, 108, 101, 116, 101, 32];
    assert(r@ =~= player_join_complete_prefix());
    r
}

/// The bytes of `"[Behaviour] OnPlayerLeft "`.
pub open spec fn player_left_prefix() -> Seq<u8> {
    seq![91u8, 66, 101, 104, 97, 118, 105, 111, 117, 114, 93, 32, 79, 110, 80, 108, 97, 121, 101, 114, 76, 101, 102, 116, 32]
}

fn player_left_marker() -> (r: [u8; 25])
    ensures
        r@ == player_left_prefix(),
{
    let r: [u8; 25] = [91u8, 66, 101, 104, 97, 118, 105, 111, 117, 114, 93, 32, 79, 110, 80, 108, 97, 121, 101, 114, 76, 101, 102, 116, 32];
    assert(r@ =~= player_left_prefix());
    r
}

/// The bytes of `"[Behaviour] Unregistering "`.
pub open spec fn unregistering_prefix() -> Seq<u8> {
    seq![91u8, 66, 101, 104, 97, 118, 105, 111, 117, 114, 93, 32, 85, 110, 114, 101, 103, 105, 115, 116, 101, 114, 105, 110, 103, 32]
}

fn unregistering_marker() -> (r: [u8; 26])
    ensures
        r@ == unregistering_prefix(),
{
    let r: [u8; 26] = [91u8, 66, 101, 104, 97, 118, 105, 111, 117, 114, 93, 32, 85, 110, 114, 101, 103, 105, 115, 116, 101, 114, 105, 110, 103, 32];
    assert(r@ =~= unregistering_prefix());
    r
}

/// The bytes of `" (usr_"`.
pub open spec fn user_id_sep() -> Seq<u8> {
    seq![32u8, 40, 117, 115, 114, 95]
}

fn user_id_sep_marker() -> (r: [u8; 6])
    ensures
        r@ == user_id_sep(),
{
    let r: [u8; 6] = [32u8, 40, 117, 115, 114, 95];
    assert(r@ =~= user_id_sep());
    r
}

/// One structured lifecycle event read out of a log line.
#[derive(Debug, Clone, PartialEq, Eq)]
pub enum DomainEvent {
    Join(Vec<u8>),
    Leave(Vec<u8>),
    WorldStateChanged,
    RoomLeft,
}

/// The mathematical shape of a [`DomainEvent`]: names as byte sequences.
pub enum EventModel {
    Join(Seq<u8>),
    Leave(Seq<u8>),
    WorldStateChanged,
    RoomLeft,
}

impl View for DomainEvent {
    type V = EventModel;

    open spec fn view(&self) -> EventModel {
        match self {
            DomainEvent::Join(name) => EventModel::Join(name@),
            DomainEvent::Leave(name) => EventModel::Leave(name@),
            DomainEvent::WorldStateChanged => EventModel::WorldStateChanged,
            DomainEvent::RoomLeft => EventModel::RoomLeft,
        }
    }
}

/// The models of a sequence of events.
pub open spec fn views_of(evs: Seq<DomainEvent>) -> Seq<EventModel> {
    evs.map_values(|e: DomainEvent| e@)
}

/// A line whose message cannot be told apart from its metadata.
#[derive(Debug, Clone, PartialEq, Eq)]
pub enum LineError {
    MissingSeparator,
}

/// The message of a line: everything after the first separator, trimmed.
/// A line without a separator has no message.
pub open spec fn message_of(line: Seq<u8>) -> Option<Seq<u8>> {
    match find_from(line, seq![SEPARATOR], 0) {
        Some(i) => Some(trim_spec(line.skip(i + 1 as int))),
        None => None,
    }
}

/// A join or leave remainder, cut at the first embedded user-id
/// parenthetical if one occurs, whole otherwise.
pub open spec fn name_before_user_id(rest: Seq<u8>) -> Seq<u8> {
    match find_from(rest, user_id_sep(), 0) {
        Some(i) => rest.take(i as int),
        None => rest,
    }
}

/// The events of one message, in the classifier's priority order.
pub open spec fn events_of_message(m: Seq<u8>) -> Seq<EventModel> {
    if m == entering_world_msg() {
        seq![EventModel::WorldStateChanged]
    } else if m == finished_entering_world_msg() {
        seq![EventModel::WorldStateChanged]
    } else if m == on_left_room_msg() {
        seq![EventModel::RoomLeft, EventModel::WorldStateChanged]
    } else if has_prefix(m, application_quit_prefix()) {
        seq![EventModel::WorldStateChanged]
    } else if has_prefix(m, player_joined_prefix()) {
        seq![EventModel::Join(name_before_user_id(m.skip(player_joined_prefix().len() as int)))]
    } else if has_prefix(m, player_join_complete_prefix()) {
        seq![EventModel::Join(m.skip(player_join_complete_prefix().len() as int))]
    } else if has_prefix(m, player_left_prefix()) {
        seq![EventModel::Leave(name_before_user_id(m.skip(player_left_prefix().len() as int)))]
    } else if has_prefix(m, unregistering_prefix()) {
        seq![EventModel::Leave(m.skip(unregistering_prefix().len() as int))]
    } else {
        Seq::empty()
    }
}

/// The events of one raw line; a line without a separator yields none.
pub open spec fn events_of_line(line: Seq<u8>) -> Seq<EventModel> {
    match message_of(line) {
        Some(m) => events_of_message(m),
        None => Seq::empty(),
    }
}

/// The events of a sequence of lines, in order.
pub open spec fn events_of_lines(ls: Seq<Seq<u8>>) -> Seq<EventModel>
    decreases ls.len(),
{
    if ls.len() == 0 {
        Seq::empty()
    } else {
        events_of_lines(ls.drop_last()) + events_of_line(ls.last())
    }
}

pub proof fn lemma_events_of_lines_concat(a: Seq<Seq<u8>>, b: Seq<Seq<u8>>)
    ensures
        events_of_lines(a + b) == events_of_lines(a) + events_of_lines(b),
    decreases b.len(),
{
    if b.len() == 0 {
        assert(a + b =~= a);
        assert(events_of_lines(a) + events_of_lines(b) =~= events_of_lines(a));
    } else {
        lemma_events_of_lines_concat(a, b.drop_last());
        assert((a + b).drop_last() =~= a + b.drop_last());
        assert((a + b).last() == b.last());
        assert(events_of_lines(a) + (events_of_lines(b.drop_last()) + events_of_line(b.last()))
            =~= (events_of_lines(a) + events_of_lines(b.drop_last())) + events_of_line(b.last()));
    }
}

/// A join or leave remainder that carries an embedded user-id
/// parenthetical is cut right before it: whatever the name and the tail,
/// if no earlier occurrence of the separator crosses the name, the name
/// alone survives.
pub proof fn lemma_name_with_user_id(name: Seq<u8>, tail: Seq<u8>)
    requires
        forall|j: int|
            0 <= j < name.len() ==> !occurs_at(name + user_id_sep() + tail, user_id_sep(), j),
    ensures
        name_before_user_id(name + user_id_sep() + tail) == name,
{
    let s = name + user_id_sep() + tail;
    assert(s.subrange(name.len() as int, (name.len() + user_id_sep().len()) as int) =~= user_id_sep());
    assert(occurs_at(s, user_id_sep(), name.len() as int));
    lemma_find_from_of_first(s, user_id_sep(), name.len() as nat);
    assert(s.take(name.len() as int) =~= name);
}

/// A join or leave remainder without any user-id parenthetical is kept
/// whole as the name.
pub proof fn lemma_name_plain(rest: Seq<u8>)
    requires
        forall|j: int| !occurs_at(rest, user_id_sep(), j),
    ensures
        name_before_user_id(rest) == rest,
{
    lemma_find_from_of_none(rest, user_id_sep());
}

/// Any message that continues the player-joined prefix classifies as
/// exactly one join of the remainder's name, with a trailing user-id
/// parenthetical cut off.
pub proof fn lemma_joined_message(rest: Seq<u8>)
    ensures
        events_of_message(player_joined_prefix() + rest) == seq![
            EventModel::Join(name_before_user_id(rest)),
        ],
{
    let m = player_joined_prefix() + rest;
    assert(m.len() == 27 + rest.len());
    assert(m[12] == 79);
    if m == finished_entering_world_msg() {
        assert(finished_entering_world_msg()[12] == 70);
        assert(false);
    }
    if has_prefix(m, application_quit_prefix()) {
        assert(m.take(application_quit_prefix().len() as int)[0] == m[0]);
        assert(m[0] == 91);
        assert(application_quit_prefix()[0] == 86);
        assert(false);
    }
    assert(m.take(player_joined_prefix().len() as int) =~= player_joined_prefix());
    assert(m.skip(player_joined_prefix().len() as int) =~= rest);
}

/// Any message that continues the player-left prefix classifies as exactly
/// one leave of the remainder's name, with a trailing user-id parenthetical
/// cut off.
pub proof fn lemma_left_message(rest: Seq<u8>)
    ensures
        events_of_message(player_left_prefix() + rest) == seq![
            EventModel::Leave(name_before_user_id(rest)),
        ],
{
    let m = player_left_prefix() + rest;
    assert(m.len() == 25 + rest.len());
    assert(m[12] == 79);
    assert(m[20] == 76);
    if m == entering_world_msg() {
        assert(entering_world_msg()[12] == 69);
        assert(false);
    }
    if m == finished_entering_world_msg() {
        assert(finished_entering_world_msg()[12] == 70);
        assert(false);
    }
    if has_prefix(m, application_quit_prefix()) {
        assert(m.take(application_quit_prefix().len() as int)[0] == m[0]);
        assert(m[0] == 91);
        assert(application_quit_prefix()[0] == 86);
        assert(false);
    }
    if has_prefix(m, player_joined_prefix()) {
        assert(m.take(player_joined_prefix().len() as int)[20] == m[20]);
        assert(player_joined_prefix()[20] == 74);
        assert(false);
    }
    if has_prefix(m, player_join_complete_prefix()) {
        assert(m.take(player_join_complete_prefix().len() as int)[20] == m[20]);
        assert(player_join_complete_prefix()[20] == 74);
        assert(false);
    }
    assert(m.take(player_left_prefix().len() as int) =~= player_left_prefix());
    assert(m.skip(player_left_prefix().len() as int) =~= rest);
}

/// Any message that continues the join-complete prefix classifies as
/// exactly one join of the remainder, taken verbatim.
pub proof fn lemma_join_complete_message(rest: Seq<u8>)
    ensures
        events_of_message(player_join_complete_prefix() + rest) == seq![EventModel::Join(rest)],
{
    let m = player_join_complete_prefix() + rest;
    assert(m.len() == 33 + rest.len());
    assert(m[12] == 79);
    assert(m[24] == 67);
    if m == finished_entering_world_msg() {
        assert(finished_entering_world_msg()[12] == 70);
        assert(false);
    }
    if has_prefix(m, application_quit_prefix()) {
        assert(m.take(application_quit_prefix().len() as int)[0] == m[0]);
        assert(m[0] == 91);
        assert(application_quit_prefix()[0] == 86);
        assert(false);
    }
    if has_prefix(m, player_joined_prefix()) {
        assert(m.take(player_joined_prefix().len() as int)[24] == m[24]);
        assert(player_joined_prefix()[24] == 101);
        assert(false);
    }
    assert(m.take(player_join_complete_prefix().len() as int)
        =~= player_join_complete_prefix());
    assert(m.skip(player_join_complete_prefix().len() as int) =~= rest);
}

/// Any message that continues the unregistering prefix classifies as
/// exactly one leave of the remainder, taken verbatim.
pub proof fn lemma_unregistering_message(rest: Seq<u8>)
    ensures
        events_of_message(unregistering_prefix() + rest) == seq![EventModel::Leave(rest)],
{
    let m = unregistering_prefix() + rest;
    assert(m.len() == 26 + rest.len());
    assert(m[12] == 85);
    if m == entering_world_msg() {
        assert(entering_world_msg()[12] == 69);
        assert(false);
    }
    if m == finished_entering_world_msg() {
        assert(finished_entering_world_msg()[12] == 70);
        assert(false);
    }
    if has_prefix(m, application_quit_prefix()) {
        assert(m.take(application_quit_prefix().len() as int)[0] == m[0]);
        assert(m[0] == 91);
        assert(application_quit_prefix()[0] == 86);
        assert(false);
    }
    if has_prefix(m, player_joined_prefix()) {
        assert(m.take(player_joined_prefix().len() as int)[12] == m[12]);
        assert(player_joined_prefix()[12] == 79);
        assert(false);
    }
    if has_prefix(m, player_join_complete_prefix()) {
        assert(m.take(player_join_complete_prefix().len() as int)[12] == m[12]);
        assert(player_join_complete_prefix()[12] == 79);
        assert(false);
    }
    if has_prefix(m, player_left_prefix()) {
        assert(m.take(player_left_prefix().len() as int)[12] == m[12]);
        assert(player_left_prefix()[12] == 79);
        assert(false);
    }
    assert(m.take(unregistering_prefix().len() as int) =~= unregistering_prefix());
    assert(m.skip(unregistering_prefix().len() as int) =~= rest);
}

/// Classifies one line. `Ok` carries the events of the line, exactly as
/// [`events_of_line`] gives them; `Err` reports a line with no separator,
/// and comes exactly on those lines.
pub fn classify_line(line: &[u8]) -> (r: Result<Vec<DomainEvent>, LineError>)
    ensures
        match r {
            Ok(evs) => message_of(line@).is_some() && views_of(evs@) == events_of_line(line@),
            Err(e) => message_of(line@).is_none() && e == LineError::MissingSeparator,
        },
{
    let sep_at = find_byte(line, SEPARATOR);
    match sep_at {
        None => {
            proof {
                assert forall|j: int| !occurs_at(line@, seq![SEPARATOR], j) by {
                    if 0 <= j && j + 1 <= line@.len() {
                        assert(line@.subrange(j, j + 1) =~= seq![line@[j]]);
                        assert(line@[j] != SEPARATOR);
                        assert(seq![line@[j]][0] == line@[j]);
                        assert(seq![SEPARATOR][0] == SEPARATOR);
                    }
                }
                lemma_find_from_of_none(line@, seq![SEPARATOR]);
            }
            Err(LineError::MissingSeparator)
        },
        Some(i) => {
            proof {
                assert(line@.subrange(i as int, i + 1) =~= seq![line@[i as int]]);
                assert(occurs_at(line@, seq![SEPARATOR], i as int));
                assert forall|j: int| 0 <= j < i implies !occurs_at(line@, seq![SEPARATOR], j) by {
                    assert(line@.subrange(j, j + 1) =~= seq![line@[j]]);
                    assert(line@[j] != SEPARATOR);
                    assert(seq![line@[j]][0] == line@[j]);
                    assert(seq![SEPARATOR][0] == SEPARATOR);
                }
                lemma_find_from_of_first(line@, seq![SEPARATOR], i as nat);
            }
            let n = line.len();
            assert(i < n);
            let after = subrange_vec(line, i + 1, n);
            proof {
                assert(after@ =~= line@.skip(i + 1));
            }
            let message = trim_ascii(after.as_slice());
            let ghost m = message@;
            assert(message_of(line@) == Some(m));
            let evs = classify_message(&message);
            Ok(evs)
        },
    }
}

/// Matches a trimmed message against the markers, in priority order.
fn classify_message(message: &Vec<u8>) -> (evs: Vec<DomainEvent>)
    ensures
        views_of(evs@) == events_of_message(message@),
{
    let m = message.as_slice();
    let mut evs: Vec<DomainEvent> = Vec::new();
    let ew = entering_world_marker();
    let few = finished_entering_world_marker();
    let olr = on_left_room_marker();
    let aq = application_quit_marker();
    let pj = player_joined_marker();
    let pjc = player_join_complete_marker();
    let pl = player_left_marker();
    let un = unregistering_marker();
    if bytes_eq(m, ew.as_slice()) {
        evs.push(DomainEvent::WorldStateChanged);
    } else if bytes_eq(m, few.as_slice()) {
        evs.push(DomainEvent::WorldStateChanged);
    } else if bytes_eq(m, olr.as_slice()) {
        evs.push(DomainEvent::RoomLeft);
        evs.push(DomainEvent::WorldStateChanged);
    } else if starts_with(m, aq.as_slice()) {
        evs.push(DomainEvent::WorldStateChanged);
    } else if starts_with(m, pj.as_slice()) {
        let name = cut_user_id(m, pj.as_slice().len());
        evs.push(DomainEvent::Join(name));
    } else if starts_with(m, pjc.as_slice()) {
        let rest = subrange_vec(m, pjc.as_slice().len(), m.len());
        proof {
            assert(rest@ =~= message@.skip(player_join_complete_prefix().len() as int));
        }
        evs.push(DomainEvent::Join(rest));
    } else if starts_with(m, pl.as_slice()) {
        let name = cut_user_id(m, pl.as_slice().len());
        evs.push(DomainEvent::Leave(name));
    } else if starts_with(m, un.as_slice()) {
        let rest = subrange_vec(m, un.as_slice().len(), m.len());
        proof {
            assert(rest@ =~= message@.skip(unregistering_prefix().len() as int));
        }
        evs.push(DomainEvent::Leave(rest));
    }
    proof {
        assert(views_of(evs@) =~= events_of_message(message@));
    }
    evs
}

/// Cuts `m` after the prefix of length `plen`, and the result again before
/// the first embedded user-id parenthetical, if any.
fn cut_user_id(m: &[u8], plen: usize) -> (name: Vec<u8>)
    requires
        plen <= m@.len(),
    ensures
        name@ == name_before_user_id(m@.skip(plen as int)),
{
    let rest = subrange_vec(m, plen, m.len());
    proof {
        assert(rest@ =~= m@.skip(plen as int));
    }
    let sep = user_id_sep_marker();
    let cut = find_sub(rest.as_slice(), sep.as_slice());
    match cut {
        Some(k) => {
            proof {
                lemma_find_from_of_first(rest@, user_id_sep(), k as nat);
            }
            subrange_vec(rest.as_slice(), 0, k)
        },
        None => {
            proof {
                lemma_find_from_of_none(rest@, user_id_sep());
            }
            rest
        },
    }
}

/// Tails one log file and classifies every line it completes.
pub struct LogParser {
    log_path: Vec<u8>,
    cursor: TailCursor,
}

impl LogParser {
    pub closed spec fn wf(&self) -> bool {
        self.cursor.wf()
    }

    /// Every byte of the tailed file handed to this parser so far.
    pub closed spec fn consumed(&self) -> Seq<u8> {
        self.cursor.consumed()
    }

    /// The path this parser was opened for.
    pub closed spec fn path_spec(&self) -> Seq<u8> {
        self.log_path@
    }

    pub fn new(log_path: &[u8]) -> (p: Self)
        ensures
            p.wf(),
            p.consumed() == Seq::<u8>::empty(),
            p.path_spec() == log_path@,
    {
        LogParser { log_path: slice_to_vec(log_path), cursor: TailCursor::new() }
    }

    /// Consumes one chunk of bytes appended to the file and returns the
    /// events of every line the chunk completed: afterwards, the events of
    /// all completed lines are exactly those already produced plus the ones
    /// returned. Empty lines yield no events; lines without a separator are
    /// skipped.
    pub fn process_chunk(&mut self, chunk: &[u8]) -> (evs: Vec<DomainEvent>)
        requires
            old(self).wf(),
        ensures
            final(self).wf(),
            final(self).path_spec() == old(self).path_spec(),
            final(self).consumed() == old(self).consumed() + chunk@,
            events_of_lines(lines_of(final(self).consumed())) == events_of_lines(
                lines_of(old(self).consumed()),
            ) + views_of(evs@),
    {
        let lines = self.cursor.feed(chunk);
        let ghost lviews = lines@.map_values(|l: Vec<u8>| l@);
        let mut evs: Vec<DomainEvent> = Vec::new();
        let mut k: usize = 0;
        while k < lines.len()
            invariant
                k <= lines@.len(),
                lviews == lines@.map_values(|l: Vec<u8>| l@),
                views_of(evs@) == events_of_lines(lviews.take(k as int)),
            decreases lines@.len() - k,
        {
            let line = &lines[k];
            proof {
                assert(lviews.take(k + 1).drop_last() =~= lviews.take(k as int));
                assert(lviews.take(k + 1).last() == line@);
            }
            if line.len() > 0 {
                match classify_line(line.as_slice()) {
                    Ok(mut es) => {
                        proof {
                            assert(views_of(evs@ + es@) =~= views_of(evs@) + views_of(es@));
                        }
                        evs.append(&mut es);
                    },
                    Err(_) => {},
                }
            }
            k += 1;
        }
        proof {
            assert(lviews.take(lines@.len() as int) =~= lviews);
            lemma_events_of_lines_concat(lines_of(old(self).consumed()), lviews);
        }
        evs
    }
}

} // verus!
