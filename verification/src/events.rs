//! Kubernetes Events for `CalibanTask`s, so that a stuck task can be diagnosed from the cluster, not
//! only from the operator's own logs.

use vstd::prelude::*;
use vstd::utf8::*;

use crate::crd::Phase;
use crate::error::{Error, ErrorView};
use crate::text;

verus! {

/// Kubernetes rejects an event note larger than 1 kB.
pub const NOTE_MAX: usize = 1024;

/// Whether an event tells of normal operation.
#[derive(Clone, Copy, Debug, PartialEq, Eq, Structural)]
pub enum EventType {
    /// Nothing to see to.
    Normal,
    /// Something may need attention.
    Warning,
}

/// An event on an object.
#[derive(Clone, Debug)]
pub struct Event {
    /// Whether the event tells of normal operation.
    pub type_: EventType,
    /// Machine-readable reason.
    pub reason: String,
    /// Human-readable note.
    pub note: Option<String>,
    /// What the operator was doing.
    pub action: String,
}

/// What an [`Event`] holds.
#[verifier::ext_equal]
pub struct EventView {
    pub type_: EventType,
    pub reason: Seq<char>,
    pub note: Option<Seq<char>>,
    pub action: Seq<char>,
}

impl DeepView for Event {
    type V = EventView;

    open spec fn deep_view(&self) -> EventView {
        EventView {
            type_: self.type_,
            reason: self.reason@,
            note: self.note.deep_view(),
            action: self.action@,
        }
    }
}

// ---------------------------------------------------------------------------------------------
// Notes
// ---------------------------------------------------------------------------------------------

/// How many bytes `c` takes in UTF-8.
pub open spec fn char_width(c: char) -> nat {
    encode_scalar(c as u32).len()
}

/// As many whole characters from the front of `s` as fit in `room` bytes.
pub open spec fn fit(s: Seq<char>, room: int) -> Seq<char>
    decreases s.len(),
{
    if s.len() == 0 || char_width(s[0]) > room {
        Seq::empty()
    } else {
        seq![s[0]] + fit(s.drop_first(), room - char_width(s[0]))
    }
}

/// How many bytes `c` takes in UTF-8.
fn width_of(c: char) -> (r: usize)
    ensures
        r == char_width(c),
        1 <= r <= 4,
{
    let n: u32 = c as u32;
    if n <= 0x7f {
        1
    } else if n <= 0x7ff {
        2
    } else if n <= 0xffff {
        3
    } else {
        4
    }
}

/// Caps a note at [`NOTE_MAX`] bytes without splitting a UTF-8 character.
pub fn truncate_note(s: &str) -> (r: String)
    ensures
        r@ == fit(s@, NOTE_MAX as int),
{
    let v = text::chars_of(s);
    let mut room: usize = NOTE_MAX;
    let mut r = String::new();
    let mut i: usize = 0;
    assert(v@.skip(0) =~= s@);
    assert(r@ + fit(v@.skip(0), room as int) =~= fit(s@, NOTE_MAX as int));
    while i < v.len() && width_of(v[i]) <= room
        invariant
            i <= v.len(),
            r@ + fit(v@.skip(i as int), room as int) == fit(s@, NOTE_MAX as int),
        decreases v.len() - i,
    {
        let ghost before = r@;
        assert(v@.skip(i as int).drop_first() =~= v@.skip(i + 1));
        room = room - width_of(v[i]);
        r.push(v[i]);
        assert(r@ + fit(v@.skip(i + 1), room as int) =~= before + (seq![v[i as int]] + fit(
            v@.skip(i + 1),
            room as int,
        )));
        i = i + 1;
    }
    assert(fit(v@.skip(i as int), room as int) =~= Seq::empty());
    assert(r@ =~= r@ + Seq::<char>::empty());
    r
}

/// What fits is a prefix, takes no more room than there is, and leaves nothing out that would have
/// fitted too.
proof fn lemma_fit(s: Seq<char>, room: int)
    requires
        room >= 0,
    ensures
        fit(s, room).len() <= s.len(),
        fit(s, room) == s.take(fit(s, room).len() as int),
        text::byte_len(fit(s, room)) <= room,
        fit(s, room).len() < s.len() ==> text::byte_len(s.take(fit(s, room).len() as int + 1)) > room,
    decreases s.len(),
{
    let f = fit(s, room);
    if s.len() == 0 {
        assert(f =~= s.take(0));
    } else if char_width(s[0]) > room {
        assert(f =~= s.take(0));
        lemma_byte_len_cons(s.take(1));
    } else {
        let rest = s.drop_first();
        let g = fit(rest, room - char_width(s[0]));
        lemma_fit(rest, room - char_width(s[0]));
        assert(f =~= s.take(f.len() as int));
        assert(f.drop_first() =~= g);
        lemma_byte_len_cons(f);
        if f.len() < s.len() {
            let t = s.take(f.len() as int + 1);
            assert(t.drop_first() =~= rest.take(g.len() as int + 1));
            lemma_byte_len_cons(t);
        }
    }
}

proof fn lemma_byte_len_cons(s: Seq<char>)
    requires
        s.len() > 0,
    ensures
        text::byte_len(s) == char_width(s[0]) + text::byte_len(s.drop_first()),
{
}

/// A capped note is the longest prefix of whole characters that takes at most 1024 bytes, and so
/// is the note itself where that fits.
pub proof fn law_notes_are_capped(s: Seq<char>)
    ensures
        text::byte_len(fit(s, NOTE_MAX as int)) <= 1024,
        fit(s, NOTE_MAX as int) == s.take(fit(s, NOTE_MAX as int).len() as int),
        fit(s, NOTE_MAX as int).len() < s.len() ==> text::byte_len(
            s.take(fit(s, NOTE_MAX as int).len() as int + 1),
        ) > 1024,
        text::byte_len(s) <= 1024 ==> fit(s, NOTE_MAX as int) == s,
{
    let f = fit(s, NOTE_MAX as int);
    lemma_fit(s, NOTE_MAX as int);
    if text::byte_len(s) <= 1024 && f.len() < s.len() {
        let t = s.take(f.len() as int + 1);
        assert(t + s.skip(f.len() as int + 1) =~= s);
        text::lemma_byte_len_add(t, s.skip(f.len() as int + 1));
    }
    assert(s.take(s.len() as int) =~= s);
}

// ---------------------------------------------------------------------------------------------
// Events
// ---------------------------------------------------------------------------------------------

/// An event with its note capped.
pub open spec fn event_of(
    type_: EventType,
    reason: Seq<char>,
    action: Seq<char>,
    note: Seq<char>,
) -> EventView {
    EventView { type_, reason, note: Some(fit(note, NOTE_MAX as int)), action }
}

/// An event with its note capped.
fn event(type_: EventType, reason: &str, action: &str, note: &str) -> (r: Event)
    ensures
        r.deep_view() == event_of(type_, reason@, action@, note@),
{
    Event {
        type_,
        reason: reason.to_string(),
        note: Some(truncate_note(note)),
        action: action.to_string(),
    }
}

/// The event for a move from one phase to another, if the phase moves.
pub open spec fn phase_change_of(from: Option<Phase>, to: Phase) -> Option<EventView> {
    if from == Some(to) {
        None
    } else {
        let note = match from {
            Some(f) => f.text() + " → "@ + to.text(),
            None => "→ "@ + to.text(),
        };
        Some(event_of(EventType::Normal, "PhaseChanged"@, "Reconcile"@, note))
    }
}

/// A Normal `PhaseChanged` event when the task's phase moves, e.g. `Provisioning → Running`; `None`
/// when it doesn't.
pub fn phase_changed(from: Option<Phase>, to: Phase) -> (r: Option<Event>)
    ensures
        r.deep_view() == phase_change_of(from, to),
{
    let note = match from {
        Some(f) => {
            if f == to {
                return None;
            }
            f.name().to_string().concat(" → ").concat(to.name())
        },
        None => "→ ".to_string().concat(to.name()),
    };
    Some(event(EventType::Normal, "PhaseChanged", "Reconcile", note.as_str()))
}

/// The event for a task marked failed.
pub open spec fn task_failed_of(reason: Seq<char>, message: Seq<char>) -> EventView {
    event_of(EventType::Warning, reason, "Admit"@, message)
}

/// A Warning for a task marked Failed, carrying the failure's own reason code and message.
pub fn task_failed(reason: &str, message: &str) -> (r: Event)
    ensures
        r.deep_view() == task_failed_of(reason@, message@),
{
    event(EventType::Warning, reason, "Admit", message)
}

/// The event for an admitted unattended task.
pub open spec fn unattended_admitted_of(workspace: Seq<char>) -> EventView {
    event_of(
        EventType::Normal,
        "UnattendedAdmitted"@,
        "Admit"@,
        "unattended posture allowed by the agent policy of workspace '"@ + workspace + "'"@,
    )
}

/// A Normal `UnattendedAdmitted` event, naming the Workspace whose policy allowed it.
pub fn unattended_admitted(workspace: &str) -> (r: Event)
    ensures
        r.deep_view() == unattended_admitted_of(workspace@),
{
    let note = "unattended posture allowed by the agent policy of workspace '".to_string().concat(
        workspace,
    ).concat("'");
    event(EventType::Normal, "UnattendedAdmitted", "Admit", note.as_str())
}

/// The event for a reconcile that failed.
pub open spec fn reconcile_error_of(err: ErrorView) -> EventView {
    event_of(EventType::Warning, "ReconcileError"@, "Reconcile"@, err.message())
}

/// A Warning for a reconcile that returned an error.
pub fn reconcile_error(err: &Error) -> (r: Event)
    ensures
        r.deep_view() == reconcile_error_of(err.deep_view()),
{
    event(EventType::Warning, "ReconcileError", "Reconcile", err.message().as_str())
}

// ---------------------------------------------------------------------------------------------
// Laws
// ---------------------------------------------------------------------------------------------

/// A move to another phase is an event that names both, and the first phase is one that names it;
/// staying in a phase is none.
pub proof fn law_phase_changes(from: Phase, to: Phase)
    ensures
        phase_change_of(Some(to), to) is None,
        from != to ==> (phase_change_of(Some(from), to) matches Some(e) && ({
            &&& e.type_ == EventType::Normal
            &&& e.reason == "PhaseChanged"@
            &&& e.action == "Reconcile"@
            &&& e.note == Some(fit(from.text() + " → "@ + to.text(), 1024))
        })),
        phase_change_of(None, to) matches Some(e) && ({
            &&& e.type_ == EventType::Normal
            &&& e.reason == "PhaseChanged"@
            &&& e.action == "Reconcile"@
            &&& e.note == Some(fit("→ "@ + to.text(), 1024))
        }),
{
}

/// Failures are warnings, with the reason and the message they are reported with; an admission is
/// none, and names the workspace. A note is never more than Kubernetes takes.
pub proof fn law_events(reason: Seq<char>, message: Seq<char>, err: ErrorView)
    ensures
        ({
            let failed = task_failed_of(reason, message);
            let error = reconcile_error_of(err);
            let admitted = unattended_admitted_of(message);
            &&& failed.type_ == EventType::Warning && failed.reason == reason && failed.action
                == "Admit"@ && failed.note == Some(fit(message, 1024))
            &&& error.type_ == EventType::Warning && error.reason == "ReconcileError"@
                && error.action == "Reconcile"@ && error.note == Some(fit(err.message(), 1024))
            &&& admitted.type_ == EventType::Normal && admitted.reason == "UnattendedAdmitted"@
                && admitted.action == "Admit"@ && admitted.note == Some(
                fit(
                    "unattended posture allowed by the agent policy of workspace '"@ + message
                        + "'"@,
                    1024,
                ),
            )
            &&& text::byte_len(message) <= 1024 ==> failed.note == Some(message)
            &&& text::byte_len(failed.note->0) <= 1024
            &&& text::byte_len(error.note->0) <= 1024
            &&& text::byte_len(admitted.note->0) <= 1024
        }),
{
    law_notes_are_capped(message);
    law_notes_are_capped(err.message());
    law_notes_are_capped(
        "unattended posture allowed by the agent policy of workspace '"@ + message + "'"@,
    );
}

} // verus!
