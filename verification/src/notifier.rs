//! The debounced aggregation of join and leave events into notifications.
//!
//! Events recorded within one debounce window land in a [`PendingEvents`]
//! set, where a duplicate name-and-kind pair collapses. When the window
//! elapses, the whole set is drained at once, split into joins and leaves,
//! and each non-empty side becomes one notification whose shape follows the
//! grouping policy: a single event keeps its own line as the title; a small
//! burst gets a count title with one line per name; a large burst gets the
//! count title alone. Titles and bodies pass through an ASCII
//! transliteration before display, because the sink may not render
//! arbitrary text.
//!
//! The surrounding shell owns the lock around the set and the one-shot
//! debounce timer: it records events under the lock, arms the timer exactly
//! when [`PendingEvents::record`] says the set was empty, and on expiry
//! drains, formats and emits.
use vstd::prelude::*;

use crate::audio::AudioEvent;
use crate::text::append_bytes;
use crate::text::bytes_eq;
use crate::text::dec_digits;
use crate::text::slice_to_vec;
use crate::text::u64_to_dec;

verus! {

/// A burst of this many players or more is summarized by its count alone,
/// with the name list suppressed.
pub const MAX_BODY_NAMES: usize = 7;

/// One debounced event: a named player joined or left.
#[derive(Debug, Clone, PartialEq, Eq, Hash)]
pub enum MessageEvent {
    Join(Vec<u8>),
    Leave(Vec<u8>),
}

/// The mathematical shape of a [`MessageEvent`].
pub enum MessageModel {
    Join(Seq<u8>),
    Leave(Seq<u8>),
}

impl View for MessageEvent {
    type V = MessageModel;

    open spec fn view(&self) -> MessageModel {
        match self {
            MessageEvent::Join(name) => MessageModel::Join(name@),
            MessageEvent::Leave(name) => MessageModel::Leave(name@),
        }
    }
}

/// The bytes of `" joined"`.
pub open spec fn joined_suffix() -> Seq<u8> {
    seq![32u8, 106, 111, 105, 110, 101, 100]
}

fn joined_suffix_marker() -> (r: [u8; 7])
    ensures
        r@ == joined_suffix(),
{
    let r: [u8; 7] = [32u8, 106, 111, 105, 110, 101, 100];
    assert(r@ =~= joined_suffix());
    r
}

/// The bytes of `" left"`.
pub open spec fn left_suffix() -> Seq<u8> {
    seq![32u8, 108, 101, 102, 116]
}

fn left_suffix_marker() -> (r: [u8; 5])
    ensures
        r@ == left_suffix(),
{
    let r: [u8; 5] = [32u8, 108, 101, 102, 116];
    assert(r@ =~= left_suffix());
    r
}

/// The bytes of `"players joined"`.
pub open spec fn players_joined_label() -> Seq<u8> {
    seq![112u8, 108, 97, 121, 101, 114, 115, 32, 106, 111, 105, 110, 101, 100]
}

fn players_joined_label_marker() -> (r: [u8; 14])
    ensures
        r@ == players_joined_label(),
{
    let r: [u8; 14] = [112u8, 108, 97, 121, 101, 114, 115, 32, 106, 111, 105, 110, 101, 100];
    assert(r@ =~= players_joined_label());
    r
}

/// The bytes of `"players left"`.
pub open spec fn players_left_label() -> Seq<u8> {
    seq![112u8, 108, 97, 121, 101, 114, 115, 32, 108, 101, 102, 116]
}

fn players_left_label_marker() -> (r: [u8; 12])
    ensures
        r@ == players_left_label(),
{
    let r: [u8; 12] = [112u8, 108, 97, 121, 101, 114, 115, 32, 108, 101, 102, 116];
    assert(r@ =~= players_left_label());
    r
}

/// The display line of one event: the name followed by what happened.
pub open spec fn text_of(m: MessageModel) -> Seq<u8> {
    match m {
        MessageModel::Join(name) => name + joined_suffix(),
        MessageModel::Leave(name) => name + left_suffix(),
    }
}

impl MessageEvent {
    /// Renders this event as its display line.
    pub fn text(&self) -> (t: Vec<u8>)
        ensures
            t@ == text_of(self@),
    {
        match self {
            MessageEvent::Join(name) => {
                let mut t = slice_to_vec(name.as_slice());
                let sfx = joined_suffix_marker();
                append_bytes(&mut t, sfx.as_slice());
                t
            },
            MessageEvent::Leave(name) => {
                let mut t = slice_to_vec(name.as_slice());
                let sfx = left_suffix_marker();
                append_bytes(&mut t, sfx.as_slice());
                t
            },
        }
    }
}

fn msg_eq(a: &MessageEvent, b: &MessageEvent) -> (r: bool)
    ensures
        r == (a@ == b@),
{
    match (a, b) {
        (MessageEvent::Join(x), MessageEvent::Join(y)) => bytes_eq(x.as_slice(), y.as_slice()),
        (MessageEvent::Leave(x), MessageEvent::Leave(y)) => bytes_eq(x.as_slice(), y.as_slice()),
        _ => false,
    }
}

/// The set of events waiting for the debounce window to elapse.
///
/// Recording keeps arrival order and collapses duplicates; the shell must
/// keep exactly one timer armed while the set is non-empty, which it can,
/// because [`PendingEvents::record`] reports precisely the transitions out
/// of emptiness.
pub struct PendingEvents {
    events: Vec<MessageEvent>,
}

impl PendingEvents {
    /// The recorded events, in first-arrival order.
    pub closed spec fn pending(&self) -> Seq<MessageModel> {
        self.events@.map_values(|e: MessageEvent| e@)
    }

    /// No event is recorded twice.
    pub open spec fn wf(&self) -> bool {
        forall|i: int, j: int|
            0 <= i < j < self.pending().len() ==> self.pending()[i] != self.pending()[j]
    }

    pub fn new() -> (s: Self)
        ensures
            s.wf(),
            s.pending().len() == 0,
    {
        let s = PendingEvents { events: Vec::new() };
        proof {
            assert(s.pending() =~= Seq::<MessageModel>::empty());
        }
        s
    }

    /// Records one event: a newcomer is appended, a duplicate collapses
    /// into the one already there. Returns whether the set was empty, which
    /// is exactly when the caller must arm the debounce timer.
    pub fn record(&mut self, event: MessageEvent) -> (was_empty: bool)
        requires
            old(self).wf(),
        ensures
            final(self).wf(),
            was_empty == (old(self).pending().len() == 0),
            old(self).pending().contains(event@) ==> final(self).pending() == old(self).pending(),
            !old(self).pending().contains(event@) ==> final(self).pending() == old(
                self,
            ).pending().push(event@),
    {
        let was_empty = self.events.len() == 0;
        let n = self.events.len();
        let mut k: usize = 0;
        while k < n
            invariant
                *self == *old(self),
                old(self).wf(),
                was_empty == (old(self).pending().len() == 0),
                k <= n == self.events@.len(),
                forall|i: int| 0 <= i < k ==> self.pending()[i] != event@,
            decreases n - k,
        {
            if msg_eq(&self.events[k], &event) {
                assert(self.pending()[k as int] == event@);
                assert(self.pending().contains(event@));
                return was_empty;
            }
            k += 1;
        }
        assert(!self.pending().contains(event@));
        let ghost before = self.pending();
        self.events.push(event);
        proof {
            assert(self.pending() =~= before.push(event@));
        }
        was_empty
    }

    /// Empties the set and hands every recorded event back, in
    /// first-arrival order.
    pub fn drain(&mut self) -> (batch: Vec<MessageEvent>)
        ensures
            final(self).wf(),
            final(self).pending().len() == 0,
            batch@.map_values(|e: MessageEvent| e@) == old(self).pending(),
    {
        let mut batch: Vec<MessageEvent> = Vec::new();
        core::mem::swap(&mut self.events, &mut batch);
        proof {
            assert(self.pending() =~= Seq::<MessageModel>::empty());
        }
        batch
    }
}

/// The display lines of the join events of a batch, in order.
pub open spec fn join_texts(batch: Seq<MessageEvent>) -> Seq<Seq<u8>>
    decreases batch.len(),
{
    if batch.len() == 0 {
        Seq::empty()
    } else {
        let rest = join_texts(batch.drop_last());
        match batch.last()@ {
            MessageModel::Join(_) => rest.push(text_of(batch.last()@)),
            MessageModel::Leave(_) => rest,
        }
    }
}

/// The display lines of the leave events of a batch, in order.
pub open spec fn leave_texts(batch: Seq<MessageEvent>) -> Seq<Seq<u8>>
    decreases batch.len(),
{
    if batch.len() == 0 {
        Seq::empty()
    } else {
        let rest = leave_texts(batch.drop_last());
        match batch.last()@ {
            MessageModel::Join(_) => rest,
            MessageModel::Leave(_) => rest.push(text_of(batch.last()@)),
        }
    }
}

/// The grouping policy over one non-empty side of a drained batch: a lone
/// line becomes the title itself; up to [`MAX_BODY_NAMES`] lines get a
/// count title and the lines as the body; more get the count title alone.
pub open spec fn group_spec(messages: Seq<Seq<u8>>, label: Seq<u8>) -> (Seq<u8>, Option<
    Seq<Seq<u8>>,
>) {
    if messages.len() == 1 {
        (messages[0], None)
    } else {
        let title = dec_digits(messages.len()) + seq![32u8] + label;
        if messages.len() < MAX_BODY_NAMES {
            (title, Some(messages))
        } else {
            (title, None)
        }
    }
}

/// The lines of a list of messages.
pub open spec fn lines_view(v: Seq<Vec<u8>>) -> Seq<Seq<u8>> {
    v.map_values(|l: Vec<u8>| l@)
}

/// The shape of one notification: a title and optional body lines.
pub open spec fn notice_view(n: (Vec<u8>, Option<Vec<Vec<u8>>>)) -> (Seq<u8>, Option<
    Seq<Seq<u8>>,
>) {
    (
        n.0@,
        match n.1 {
            Some(b) => Some(lines_view(b@)),
            None => None,
        },
    )
}

/// Applies the grouping policy to one non-empty side of a batch.
pub fn group(messages: Vec<Vec<u8>>, label: &[u8]) -> (r: (Vec<u8>, Option<Vec<Vec<u8>>>))
    requires
        messages@.len() >= 1,
    ensures
        notice_view(r) == group_spec(lines_view(messages@), label@),
{
    let mut messages = messages;
    if messages.len() == 1 {
        let title = messages.remove(0);
        (title, None)
    } else {
        let count = messages.len();
        let mut title = u64_to_dec(count as u64);
        title.push(32);
        append_bytes(&mut title, label);
        proof {
            assert(title@ =~= dec_digits(messages@.len()) + seq![32u8] + label@);
        }
        if count < MAX_BODY_NAMES {
            (title, Some(messages))
        } else {
            (title, None)
        }
    }
}

/// The notifications a drained batch produces: one per non-empty side,
/// joins first.
pub open spec fn batch_notices(batch: Seq<MessageEvent>) -> Seq<(Seq<u8>, Option<Seq<Seq<u8>>>)> {
    let js = join_texts(batch);
    let ls = leave_texts(batch);
    (if js.len() > 0 {
        seq![group_spec(js, players_joined_label())]
    } else {
        Seq::empty()
    }) + (if ls.len() > 0 {
        seq![group_spec(ls, players_left_label())]
    } else {
        Seq::empty()
    })
}

/// The sounds a drained batch asks for: one per non-empty side, joins
/// first.
pub open spec fn batch_cues(batch: Seq<MessageEvent>) -> Seq<AudioEvent> {
    (if join_texts(batch).len() > 0 {
        seq![AudioEvent::Join]
    } else {
        Seq::empty()
    }) + (if leave_texts(batch).len() > 0 {
        seq![AudioEvent::Leave]
    } else {
        Seq::empty()
    })
}

/// Turns one drained batch into its notifications and sound cues.
pub fn format_batch(batch: &Vec<MessageEvent>) -> (r: (
    Vec<(Vec<u8>, Option<Vec<Vec<u8>>>)>,
    Vec<AudioEvent>,
))
    ensures
        r.0@.map_values(|n: (Vec<u8>, Option<Vec<Vec<u8>>>)| notice_view(n)) == batch_notices(
            batch@,
        ),
        r.1@ == batch_cues(batch@),
{
    let mut joins: Vec<Vec<u8>> = Vec::new();
    let mut leaves: Vec<Vec<u8>> = Vec::new();
    let mut k: usize = 0;
    while k < batch.len()
        invariant
            k <= batch@.len(),
            lines_view(joins@) == join_texts(batch@.take(k as int)),
            lines_view(leaves@) == leave_texts(batch@.take(k as int)),
        decreases batch@.len() - k,
    {
        let e = &batch[k];
        proof {
            assert(batch@.take(k + 1).drop_last() =~= batch@.take(k as int));
            assert(batch@.take(k + 1).last() == batch@[k as int]);
        }
        let line = e.text();
        match e {
            MessageEvent::Join(_) => {
                joins.push(line);
                proof {
                    assert(lines_view(joins@) =~= join_texts(batch@.take(k + 1)));
                    assert(lines_view(leaves@) =~= leave_texts(batch@.take(k + 1)));
                }
            },
            MessageEvent::Leave(_) => {
                leaves.push(line);
                proof {
                    assert(lines_view(joins@) =~= join_texts(batch@.take(k + 1)));
                    assert(lines_view(leaves@) =~= leave_texts(batch@.take(k + 1)));
                }
            },
        }
        k += 1;
    }
    proof {
        assert(batch@.take(batch@.len() as int) =~= batch@);
    }
    let mut notices: Vec<(Vec<u8>, Option<Vec<Vec<u8>>>)> = Vec::new();
    let mut cues: Vec<AudioEvent> = Vec::new();
    let has_joins = joins.len() > 0;
    let has_leaves = leaves.len() > 0;
    if has_joins {
        cues.push(AudioEvent::Join);
        let label = players_joined_label_marker();
        notices.push(group(joins, label.as_slice()));
    }
    if has_leaves {
        cues.push(AudioEvent::Leave);
        let label = players_left_label_marker();
        notices.push(group(leaves, label.as_slice()));
    }
    proof {
        assert(notices@.map_values(|n: (Vec<u8>, Option<Vec<Vec<u8>>>)| notice_view(n))
            =~= batch_notices(batch@));
        assert(cues@ =~= batch_cues(batch@));
    }
    (notices, cues)
}

/// What the outside transliteration returns for a given byte string; it
/// depends on the bytes alone.
pub uninterp spec fn transliterated(s: Seq<u8>) -> Seq<u8>;

/// Relies on deunicode::deunicode: the result is a pure function of the
/// input characters, is entirely ASCII, and maps ASCII input to itself.
#[verifier::external_body]
fn deunicode_bytes(text: &[u8]) -> (r: Vec<u8>)
    ensures
        r@ == transliterated(text@),
        forall|i: int| 0 <= i < r@.len() ==> r@[i] < 128,
        (forall|i: int| 0 <= i < text@.len() ==> #[trigger] text@[i] < 128) ==> r@ == text@,
{
    let s = String::from_utf8_lossy(text);
    deunicode::deunicode(&s).into_bytes()
}

/// Collapses a display text to its closest ASCII transliteration; text
/// already ASCII passes through unchanged.
pub fn sanitize(text: &[u8]) -> (r: Vec<u8>)
    ensures
        r@ == transliterated(text@),
        forall|i: int| 0 <= i < r@.len() ==> r@[i] < 128,
        (forall|i: int| 0 <= i < text@.len() ==> #[trigger] text@[i] < 128) ==> r@ == text@,
{
    deunicode_bytes(text)
}

} // verus!
