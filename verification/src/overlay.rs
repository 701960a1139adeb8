//! The on-screen pill: what it shows for each phase of a take, how long a
//! finished note stays up, and the width the page may ask for. The app owns
//! the always-on-top window that never takes focus, and places it.

use vstd::prelude::*;
use crate::text::{
    chars_of, copy_range, push_all, push_str, split_by, split_chars, str_eq, string_from, string_of,
    trim, trim_chars, trim_chars_by, trim_end_by, vviews, CharClass,
};

verus! {

/// Width before the page reports the pill's, and the bounds it may report.
pub const DEFAULT_WIDTH: u32 = 360;

pub const MIN_WIDTH: u32 = 120;

pub const MAX_WIDTH: u32 = 440;

#[derive(Clone, Debug, PartialEq, Eq)]
pub struct Payload {
    /// `ready`, `listening`, `processing`, `error`, `cancelled`, `notice`, or `hidden`.
    pub phase: String,
    pub title: String,
    pub detail: String,
}

pub open spec fn payload_view(p: Payload) -> (Seq<char>, Seq<char>, Seq<char>) {
    (p.phase@, p.title@, p.detail@)
}

impl Payload {
    pub fn hidden() -> (p: Self)
        ensures
            payload_view(p) == ("hidden"@, Seq::<char>::empty(), Seq::<char>::empty()),
    {
        Payload { phase: string_from("hidden"), title: String::new(), detail: String::new() }
    }
}

pub enum Phase {
    Ready { title: String, detail: String },
    /// `hint` is shown beside the level ("Esc to cancel"), or empty.
    Listening { hint: String },
    Processing,
    Error(String),
    Cancelled,
    /// A short note, such as "Nothing to paste yet".
    Notice(String),
}

/// The first line of `message`, trimmed; cut to 87 characters and an
/// ellipsis when it is longer than 90.
pub open spec fn short_spec(message: Seq<char>) -> Seq<char> {
    let line = trim(split_by(message, seq!['\n'])[0]);
    if line.len() <= 90 {
        line
    } else {
        trim_end_by(line.take(87), CharClass::Whitespace) + seq!['…']
    }
}

/// One line, short enough for the pill.
pub fn short(message: &str) -> (out: String)
    ensures
        out@ == short_spec(message@),
{
    let v = chars_of(message);
    let nl = vec!['\n'];
    assert(nl@ =~= seq!['\n']);
    let parts = split_chars(&v, &nl);
    proof {
        crate::text::lemma_split_by_nonempty(v@, nl@);
        assert(vviews(parts@)[0] == parts@[0]@);
    }
    let line = trim_chars(&parts[0]);
    if line.len() <= 90 {
        return string_of(&line);
    }
    let cut = copy_range(&line, 0, 87);
    assert(cut@ =~= line@.take(87));
    let mut out = trim_chars_by(&cut, CharClass::Whitespace, false, true);
    out.push('…');
    string_of(&out)
}

/// What the pill shows for a phase, and when a finished note hides itself.
pub open spec fn phase_spec(phase: Phase) -> ((Seq<char>, Seq<char>, Seq<char>), Option<u64>) {
    match phase {
        Phase::Ready { title, detail } => (("ready"@, title@, detail@), Some(3_600)),
        Phase::Listening { hint } => (("listening"@, "Listening"@, hint@), None),
        Phase::Processing => (("processing"@, "Transcribing"@, Seq::<char>::empty()), None),
        Phase::Error(message) => (("error"@, "Dictation failed"@, short_spec(message@)), Some(3_200)),
        Phase::Cancelled => (("cancelled"@, "Cancelled"@, Seq::<char>::empty()), Some(1_100)),
        Phase::Notice(message) => (("notice"@, short_spec(message@), Seq::<char>::empty()), Some(1_800)),
    }
}

/// What the app does after `show`.
pub enum ShowOutcome {
    /// The overlay is off for this phase: it was hidden.
    Hidden,
    /// Send `payload`, place and show the window; when `hide_after_ms` is
    /// set, hide it then unless `generation` is no longer current.
    Shown { payload: Payload, generation: u64, hide_after_ms: Option<u64> },
}

/// The pill's state: the payload last sent, a generation that every update
/// bumps (so a stale hide timer does nothing), and the pill's width.
pub struct OverlayState {
    pub current: Option<Payload>,
    pub generation: u64,
    pub width: u32,
}

impl OverlayState {
    pub fn new() -> (s: Self)
        ensures
            s.current is None,
            s.generation == 0,
            s.width == DEFAULT_WIDTH,
    {
        OverlayState { current: None, generation: 0, width: DEFAULT_WIDTH }
    }

    pub open spec fn current_view(&self) -> (Seq<char>, Seq<char>, Seq<char>) {
        match self.current {
            Some(p) => payload_view(p),
            None => ("hidden"@, Seq::<char>::empty(), Seq::<char>::empty()),
        }
    }

    /// What the overlay page renders when it loads: the last update, or the
    /// hidden pill before any.
    pub fn current(&self) -> (p: Payload)
        ensures
            payload_view(p) == self.current_view(),
    {
        match &self.current {
            Some(p) => Payload {
                phase: string_from(p.phase.as_str()),
                title: string_from(p.title.as_str()),
                detail: string_from(p.detail.as_str()),
            },
            None => Payload::hidden(),
        }
    }

    /// Hides the pill: a later update is needed to show it again.
    pub fn hide_pill(&mut self)
        ensures
            final(self).current_view() == ("hidden"@, Seq::<char>::empty(), Seq::<char>::empty()),
            final(self).generation == old(self).generation.wrapping_add(1),
            final(self).width == old(self).width,
    {
        self.generation = self.generation.wrapping_add(1);
        self.current = Some(Payload::hidden());
    }

    /// Shows a phase; `enabled` is the user's overlay setting for it.
    pub fn show(&mut self, phase: Phase, enabled: bool) -> (out: ShowOutcome)
        ensures
            !enabled ==> out is Hidden && final(self).current_view() == ("hidden"@, Seq::<char>::empty(), Seq::<char>::empty())
                && final(self).generation == old(self).generation.wrapping_add(1),
            enabled ==> match out {
                ShowOutcome::Shown { payload, generation, hide_after_ms } => {
                    &&& (payload_view(payload), hide_after_ms) == phase_spec(phase)
                    &&& generation == old(self).generation.wrapping_add(1)
                    &&& final(self).generation == generation
                    &&& final(self).current_view() == payload_view(payload)
                },
                ShowOutcome::Hidden => false,
            },
            final(self).width == old(self).width,
    {
        if !enabled {
            self.hide_pill();
            return ShowOutcome::Hidden;
        }
        let (payload, hide_after_ms): (Payload, Option<u64>) = match phase {
            Phase::Ready { title, detail } => (
                Payload { phase: string_from("ready"), title, detail },
                Some(3_600),
            ),
            Phase::Listening { hint } => (
                Payload { phase: string_from("listening"), title: string_from("Listening"), detail: hint },
                None,
            ),
            Phase::Processing => (
                Payload {
                    phase: string_from("processing"),
                    title: string_from("Transcribing"),
                    detail: String::new(),
                },
                None,
            ),
            Phase::Error(message) => (
                Payload {
                    phase: string_from("error"),
                    title: string_from("Dictation failed"),
                    detail: short(message.as_str()),
                },
                Some(3_200),
            ),
            Phase::Cancelled => (
                Payload {
                    phase: string_from("cancelled"),
                    title: string_from("Cancelled"),
                    detail: String::new(),
                },
                Some(1_100),
            ),
            Phase::Notice(message) => (
                Payload { phase: string_from("notice"), title: short(message.as_str()), detail: String::new() },
                Some(1_800),
            ),
        };
        let generation = self.generation.wrapping_add(1);
        self.generation = generation;
        let sent = Payload {
            phase: string_from(payload.phase.as_str()),
            title: string_from(payload.title.as_str()),
            detail: string_from(payload.detail.as_str()),
        };
        self.current = Some(sent);
        ShowOutcome::Shown { payload, generation, hide_after_ms }
    }

    /// A hide timer of `generation` fired: it hides only if nothing was
    /// shown since.
    pub fn hide_timer_fired(&mut self, generation: u64) -> (hidden: bool)
        ensures
            hidden == (old(self).generation == generation),
            hidden ==> final(self).current_view() == ("hidden"@, Seq::<char>::empty(), Seq::<char>::empty())
                && final(self).generation == old(self).generation.wrapping_add(1),
            !hidden ==> final(self).current_view() == old(self).current_view() && final(self).generation
                == old(self).generation,
    {
        if self.generation == generation {
            self.hide_pill();
            true
        } else {
            false
        }
    }

    /// A click on the pill: listening and transcribing stay up; the rest go.
    pub fn dismiss(&mut self) -> (hidden: bool)
        ensures
            hidden == !(old(self).current_view().0 == "listening"@ || old(self).current_view().0
                == "processing"@),
            hidden ==> final(self).current_view() == ("hidden"@, Seq::<char>::empty(), Seq::<char>::empty()),
            !hidden ==> final(self).current_view() == old(self).current_view(),
    {
        let p = self.current();
        if str_eq(p.phase.as_str(), "listening") || str_eq(p.phase.as_str(), "processing") {
            false
        } else {
            self.hide_pill();
            true
        }
    }

    /// The page measured its pill: keep the width within bounds. True when
    /// the window must be re-placed (the width changed while it is shown).
    pub fn set_width(&mut self, measured: u32) -> (replace: bool)
        ensures
            final(self).width == (if measured < MIN_WIDTH {
                MIN_WIDTH
            } else if measured > MAX_WIDTH {
                MAX_WIDTH
            } else {
                measured
            }),
            replace == (final(self).width != old(self).width && old(self).current_view().0 != "hidden"@),
            final(self).current_view() == old(self).current_view(),
            final(self).generation == old(self).generation,
    {
        let width = if measured < MIN_WIDTH {
            MIN_WIDTH
        } else if measured > MAX_WIDTH {
            MAX_WIDTH
        } else {
            measured
        };
        let changed = self.width != width;
        self.width = width;
        let p = self.current();
        changed && !str_eq(p.phase.as_str(), "hidden")
    }

    /// Live preview text goes to the pill only while it is listening.
    pub fn accepts_live_text(&self) -> (r: bool)
        ensures
            r == (self.current_view().0 == "listening"@),
    {
        let p = self.current();
        str_eq(p.phase.as_str(), "listening")
    }
}

/// Every note that is not listening or transcribing hides itself.
pub proof fn law_finished_notes_hide_themselves(phase: Phase)
    ensures
        (phase_spec(phase).1 is None) == (phase is Listening || phase is Processing),
{
}

} // verus!
