//! Live preview: text in the pill while the user speaks. A worker decodes
//! the most recent audio of the take about every 900 ms with the model the
//! take will use; it stops before the final decode, so the two never hold
//! the model at once. The app runs the worker thread; this module decides
//! each pass and what the pill is sent.

use vstd::prelude::*;
use crate::text::{chars_eq, chars_of, string_of, trim, trim_chars};

verus! {

/// Milliseconds between preview passes.
pub const INTERVAL_MS: u64 = 900;

/// Seconds of the most recent audio each pass decodes.
pub const WINDOW_SECONDS: u32 = 10;

/// Less than this many 16 kHz samples is not worth a pass.
pub const MINIMUM_SAMPLES: usize = 8_000;

/// The preview worker's slot: the take a running worker previews.
pub struct PreviewWorker {
    pub session: Option<u64>,
}

impl PreviewWorker {
    pub fn new() -> (w: Self)
        ensures
            w.session is None,
    {
        PreviewWorker { session: None }
    }

    /// Starts previewing take `session`. Returns the earlier worker's take,
    /// which the caller stops and joins first.
    pub fn start(&mut self, session: u64) -> (earlier: Option<u64>)
        ensures
            earlier == old(self).session,
            final(self).session == Some(session),
    {
        let earlier = self.stop();
        self.session = Some(session);
        earlier
    }

    /// Takes the running worker, if any: the caller signals it and waits for
    /// a pass in flight to finish.
    pub fn stop(&mut self) -> (worker: Option<u64>)
        ensures
            worker == old(self).session,
            final(self).session is None,
    {
        let worker = self.session;
        self.session = None;
        worker
    }
}

#[derive(Clone, Copy, Debug, PartialEq, Eq)]
pub enum PassDecision {
    /// The worker ends.
    Stop,
    /// Nothing worth decoding yet; wait for the next pass.
    Skip,
    /// Decode the snapshot.
    Decode,
}

/// One pass: stop when asked to or when another take began or capture
/// ended (no snapshot); skip short or silent audio; else decode.
pub fn pass_decision(stopping: bool, current_session: u64, session: u64, snapshot_samples: Option<usize>, no_speech: bool) -> (d: PassDecision)
    ensures
        d == (if stopping || current_session != session || snapshot_samples is None {
            PassDecision::Stop
        } else if snapshot_samples.unwrap() < MINIMUM_SAMPLES || no_speech {
            PassDecision::Skip
        } else {
            PassDecision::Decode
        }),
{
    if stopping || current_session != session {
        return PassDecision::Stop;
    }
    match snapshot_samples {
        None => PassDecision::Stop,
        Some(n) => if n < MINIMUM_SAMPLES || no_speech {
            PassDecision::Skip
        } else {
            PassDecision::Decode
        },
    }
}

/// The text the pill shows so far.
pub struct PreviewText {
    pub shown: String,
}

impl PreviewText {
    pub fn new() -> (p: Self)
        ensures
            p.shown@ == Seq::<char>::empty(),
    {
        PreviewText { shown: String::new() }
    }

    /// A pass decoded `text`: the trimmed text is sent to the pill when it is
    /// not empty and differs from what the pill shows.
    pub fn offer(&mut self, text: &str) -> (sent: Option<String>)
        ensures
            trim(text@).len() > 0 && trim(text@) != old(self).shown@ ==> (sent matches Some(s) && s@
                == trim(text@) && final(self).shown@ == trim(text@)),
            !(trim(text@).len() > 0 && trim(text@) != old(self).shown@) ==> sent is None
                && final(self).shown@ == old(self).shown@,
    {
        let v = chars_of(text);
        let t = trim_chars(&v);
        let shown = chars_of(self.shown.as_str());
        if t.len() > 0 && !chars_eq(&t, &shown) {
            self.shown = string_of(&t);
            Some(string_of(&t))
        } else {
            None
        }
    }
}

} // verus!
