//! In-process log buffer for the Debug pane: the most recent 500 lines with
//! their levels, filtered for display. Mirroring to stderr and emitting to
//! the window belong to the caller.

use std::collections::VecDeque;
use vstd::prelude::*;
use crate::text::{push_str, string_from, string_of};

verus! {

pub const CAPACITY: usize = 500;

#[derive(Clone, Copy, Debug, PartialEq, Eq)]
pub enum Level {
    Debug,
    Info,
    Warn,
    Error,
}

pub open spec fn level_name(level: Level) -> Seq<char> {
    match level {
        Level::Debug => "debug"@,
        Level::Info => "info"@,
        Level::Warn => "warn"@,
        Level::Error => "error"@,
    }
}

pub open spec fn level_rank(level: Level) -> u8 {
    match level {
        Level::Debug => 0,
        Level::Info => 1,
        Level::Warn => 2,
        Level::Error => 3,
    }
}

impl Level {
    pub fn as_str(self) -> (s: &'static str)
        ensures
            s@ == level_name(self),
    {
        match self {
            Level::Debug => "debug",
            Level::Info => "info",
            Level::Warn => "warn",
            Level::Error => "error",
        }
    }

    fn rank(self) -> (r: u8)
        ensures
            r == level_rank(self),
    {
        match self {
            Level::Debug => 0,
            Level::Info => 1,
            Level::Warn => 2,
            Level::Error => 3,
        }
    }
}

/// A line as the Debug pane receives it.
#[derive(Clone, Debug)]
pub struct LogLine {
    pub level: String,
    pub text: String,
}

pub struct Entry {
    level: Level,
    text: String,
}

/// A kept line: its level and text.
pub closed spec fn entry_view(e: Entry) -> (Level, Seq<char>) {
    (e.level, e.text@)
}

/// The kept lines, oldest first, and whether debug lines are shown.
pub struct LogBuffer {
    lines: VecDeque<Entry>,
    debug: bool,
}

/// A line is shown when debug lines are included or it is a warning or error.
pub open spec fn shown(level: Level, include_debug: bool) -> bool {
    include_debug || level_rank(level) >= 2
}

/// The shown lines of `entries`, as (level name, text).
pub open spec fn filtered(entries: Seq<(Level, Seq<char>)>, include_debug: bool) -> Seq<(Seq<char>, Seq<char>)>
    decreases entries.len(),
{
    if entries.len() == 0 {
        seq![]
    } else {
        let before = filtered(entries.drop_last(), include_debug);
        let (level, text) = entries.last();
        if shown(level, include_debug) {
            before.push((level_name(level), text))
        } else {
            before
        }
    }
}

/// `[level] text` lines joined with newlines.
pub open spec fn joined(lines: Seq<(Seq<char>, Seq<char>)>) -> Seq<char>
    decreases lines.len(),
{
    if lines.len() == 0 {
        seq![]
    } else {
        let l = lines.last();
        let line = "["@ + l.0 + "] "@ + l.1;
        if lines.len() == 1 {
            line
        } else {
            joined(lines.drop_last()) + "\n"@ + line
        }
    }
}

/// What pushing one line does to the kept lines: it goes last, and the
/// oldest goes when 500 are kept.
pub open spec fn pushed(entries: Seq<(Level, Seq<char>)>, e: (Level, Seq<char>)) -> Seq<(Level, Seq<char>)> {
    if entries.len() >= CAPACITY {
        entries.drop_first().push(e)
    } else {
        entries.push(e)
    }
}

impl LogBuffer {
    /// The kept lines, oldest first.
    pub closed spec fn entries(&self) -> Seq<(Level, Seq<char>)> {
        self.lines@.map_values(|e: Entry| entry_view(e))
    }

    pub closed spec fn debug_flag(&self) -> bool {
        self.debug
    }

    /// At most 500 lines are kept.
    pub open spec fn wf(&self) -> bool {
        self.entries().len() <= CAPACITY
    }

    pub fn new() -> (b: Self)
        ensures
            b.wf(),
            b.entries() == Seq::<(Level, Seq<char>)>::empty(),
            !b.debug_flag(),
    {
        let b = LogBuffer { lines: VecDeque::new(), debug: false };
        assert(b.entries() =~= Seq::<(Level, Seq<char>)>::empty());
        b
    }

    pub fn set_debug_enabled(&mut self, enabled: bool)
        ensures
            final(self).debug_flag() == enabled,
            final(self).entries() == old(self).entries(),
    {
        self.debug = enabled;
    }

    pub fn debug_enabled(&self) -> (r: bool)
        ensures
            r == self.debug_flag(),
    {
        self.debug
    }

    /// Keeps `line` at `level`, dropping the oldest line when 500 are kept.
    pub fn push_level(&mut self, level: Level, line: String)
        requires
            old(self).wf(),
        ensures
            final(self).wf(),
            final(self).entries() == pushed(old(self).entries(), (level, line@)),
            final(self).debug_flag() == old(self).debug_flag(),
    {
        let ghost e = (level, line@);
        let ghost before = self.entries();
        if self.lines.len() >= CAPACITY {
            let _ = self.lines.pop_front();
            assert(self.entries() =~= before.drop_first());
        }
        let ghost mid = self.entries();
        self.lines.push_back(Entry { level, text: line });
        assert(self.entries() =~= mid.push(e));
    }

    pub fn push(&mut self, line: String)
        requires
            old(self).wf(),
        ensures
            final(self).wf(),
            final(self).entries() == pushed(old(self).entries(), (Level::Info, line@)),
            final(self).debug_flag() == old(self).debug_flag(),
    {
        self.push_level(Level::Info, line);
    }

    pub fn debug(&mut self, line: String)
        requires
            old(self).wf(),
        ensures
            final(self).wf(),
            final(self).entries() == pushed(old(self).entries(), (Level::Debug, line@)),
            final(self).debug_flag() == old(self).debug_flag(),
    {
        self.push_level(Level::Debug, line);
    }

    pub fn warn(&mut self, line: String)
        requires
            old(self).wf(),
        ensures
            final(self).wf(),
            final(self).entries() == pushed(old(self).entries(), (Level::Warn, line@)),
            final(self).debug_flag() == old(self).debug_flag(),
    {
        self.push_level(Level::Warn, line);
    }

    pub fn error(&mut self, line: String)
        requires
            old(self).wf(),
        ensures
            final(self).wf(),
            final(self).entries() == pushed(old(self).entries(), (Level::Error, line@)),
            final(self).debug_flag() == old(self).debug_flag(),
    {
        self.push_level(Level::Error, line);
    }

    /// The lines the Debug pane shows: all with debug logging on, else
    /// warnings and errors only.
    pub fn snapshot(&self) -> (out: Vec<LogLine>)
        ensures
            out@.map_values(|l: LogLine| (l.level@, l.text@)) == filtered(
                self.entries(),
                self.debug_flag(),
            ),
    {
        self.snapshot_filtered(self.debug)
    }

    pub fn snapshot_filtered(&self, include_debug: bool) -> (out: Vec<LogLine>)
        ensures
            out@.map_values(|l: LogLine| (l.level@, l.text@)) == filtered(
                self.entries(),
                include_debug,
            ),
    {
        let min: u8 = if include_debug {
            0
        } else {
            2
        };
        let ghost es = self.entries();
        let mut out: Vec<LogLine> = Vec::new();
        let mut i: usize = 0;
        assert(es.take(0) =~= Seq::<(Level, Seq<char>)>::empty());
        assert(out@.map_values(|l: LogLine| (l.level@, l.text@)) =~= Seq::<(Seq<char>, Seq<char>)>::empty());
        while i < self.lines.len()
            invariant
                i <= self.lines@.len(),
                es == self.entries(),
                es.len() == self.lines@.len(),
                min == (if include_debug { 0u8 } else { 2u8 }),
                out@.map_values(|l: LogLine| (l.level@, l.text@)) == filtered(
                    es.take(i as int),
                    include_debug,
                ),
            decreases self.lines@.len() - i,
        {
            assert(es.take(i + 1).drop_last() =~= es.take(i as int));
            let entry = &self.lines[i];
            assert(es.take(i + 1).last() == entry_view(*entry));
            if entry.level.rank() >= min {
                let ghost before = out@.map_values(|l: LogLine| (l.level@, l.text@));
                out.push(LogLine { level: string_from(entry.level.as_str()), text: entry.text.clone() });
                assert(out@.map_values(|l: LogLine| (l.level@, l.text@)) =~= before.push(
                    (level_name(entry.level), entry.text@),
                ));
            }
            i += 1;
        }
        assert(es.take(self.lines@.len() as int) =~= es);
        out
    }

    /// The shown lines as `[level] text`, one per line.
    pub fn snapshot_text(&self, include_debug: bool) -> (out: String)
        ensures
            out@ == joined(filtered(self.entries(), include_debug)),
    {
        let lines = self.snapshot_filtered(include_debug);
        let ghost ls = lines@.map_values(|l: LogLine| (l.level@, l.text@));
        let mut text: Vec<char> = Vec::new();
        let mut i: usize = 0;
        assert(ls.take(0) =~= Seq::<(Seq<char>, Seq<char>)>::empty());
        while i < lines.len()
            invariant
                i <= lines@.len(),
                ls == lines@.map_values(|l: LogLine| (l.level@, l.text@)),
                ls.len() == lines@.len(),
                text@ == joined(ls.take(i as int)),
            decreases lines@.len() - i,
        {
            assert(ls.take(i + 1).drop_last() =~= ls.take(i as int));
            assert(ls.take(i + 1).last() == (lines@[i as int].level@, lines@[i as int].text@));
            if i > 0 {
                push_str(&mut text, "\n");
            }
            push_str(&mut text, "[");
            push_str(&mut text, lines[i].level.as_str());
            push_str(&mut text, "] ");
            push_str(&mut text, lines[i].text.as_str());
            proof {
                let l = ls.take(i + 1).last();
                if i > 0 {
                    assert(text@ =~= joined(ls.take(i as int)) + "\n"@ + ("["@ + l.0 + "] "@ + l.1));
                } else {
                    assert(text@ =~= "["@ + l.0 + "] "@ + l.1);
                }
            }
            i += 1;
        }
        assert(ls.take(lines@.len() as int) =~= ls);
        string_of(&text)
    }

    pub fn clear(&mut self)
        ensures
            final(self).wf(),
            final(self).entries() == Seq::<(Level, Seq<char>)>::empty(),
            final(self).debug_flag() == old(self).debug_flag(),
    {
        self.lines = VecDeque::new();
        assert(self.entries() =~= Seq::<(Level, Seq<char>)>::empty());
    }
}

/// The buffer never holds more than 500 lines, and the newest line is
/// always kept last after a push.
pub proof fn law_push_keeps_newest_within_capacity(entries: Seq<(Level, Seq<char>)>, e: (Level, Seq<char>))
    requires
        entries.len() <= CAPACITY,
    ensures
        pushed(entries, e).len() <= CAPACITY,
        pushed(entries, e).last() == e,
        entries.len() < CAPACITY ==> pushed(entries, e).drop_last() == entries,
        entries.len() == CAPACITY ==> pushed(entries, e).drop_last() == entries.drop_first(),
{
}

/// The default view hides debug and info lines: a line is shown without
/// debug logging exactly when it is a warning or an error.
pub proof fn law_default_view_shows_warnings_and_errors(level: Level)
    ensures
        shown(level, false) <==> (level == Level::Warn || level == Level::Error),
        shown(level, true),
{
}

/// With debug lines included every kept line is shown, in order.
proof fn lemma_all_shown(entries: Seq<(Level, Seq<char>)>)
    ensures
        filtered(entries, true) == entries.map_values(
            |x: (Level, Seq<char>)| (level_name(x.0), x.1),
        ),
    decreases entries.len(),
{
    if entries.len() > 0 {
        lemma_all_shown(entries.drop_last());
        assert(entries.map_values(|x: (Level, Seq<char>)| (level_name(x.0), x.1)) =~= entries.drop_last().map_values(
            |x: (Level, Seq<char>)| (level_name(x.0), x.1),
        ).push((level_name(entries.last().0), entries.last().1)));
    }
}

/// What the full snapshot shows after a push: the lines shown before, then
/// the new one; once 500 lines are kept, the oldest is no longer shown.
pub proof fn law_snapshot_after_push(entries: Seq<(Level, Seq<char>)>, e: (Level, Seq<char>))
    requires
        entries.len() <= CAPACITY,
    ensures
        entries.len() < CAPACITY ==> filtered(pushed(entries, e), true) == filtered(entries, true).push(
            (level_name(e.0), e.1),
        ),
        entries.len() == CAPACITY ==> filtered(pushed(entries, e), true) == filtered(
            entries,
            true,
        ).drop_first().push((level_name(e.0), e.1)),
{
    lemma_all_shown(entries);
    lemma_all_shown(pushed(entries, e));
    let f = |x: (Level, Seq<char>)| (level_name(x.0), x.1);
    if entries.len() < CAPACITY {
        assert(entries.push(e).map_values(f) =~= entries.map_values(f).push(f(e)));
    } else {
        assert(entries.drop_first().push(e).map_values(f) =~= entries.map_values(f).drop_first().push(
            f(e),
        ));
    }
}

} // verus!
