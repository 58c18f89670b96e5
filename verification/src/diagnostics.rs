//! Which diagnostics are written to the log, and how often.

use crate::units::TICKS_PER_SECOND;
use std::collections::HashSet;
use vstd::prelude::*;
use vstd::string::{StrSliceExecFns, StringExecFns};

verus! {

broadcast use vstd::std_specs::hash::group_hash_axioms;

/// Identifies a diagnostic.
#[derive(Clone, Copy, Debug, PartialEq, Eq, Structural, Hash)]
pub struct DiagnosticId(pub u128);

/// Settings of the logging of diagnostics.
#[derive(Clone, Copy, Debug, PartialEq, Eq, Structural)]
pub struct LogDiagnosticsPlugin {
    /// Whether the diagnostics are logged in full.
    pub debug: bool,
    /// Ticks between two rounds of logging.
    pub wait_duration: i64,
}

impl Default for LogDiagnosticsPlugin {
    fn default() -> (plugin: Self)
        ensures
            !plugin.debug,
            plugin.wait_duration == TICKS_PER_SECOND,
    {
        LogDiagnosticsPlugin { debug: false, wait_duration: TICKS_PER_SECOND }
    }
}

/// The width to which the names of diagnostics are filled up in the log.
pub const MAX_LOG_NAME_WIDTH: usize = 32;

/// The width to which a value is filled up in the log when its average
/// stands behind it.
pub const LOG_VALUE_WIDTH: usize = 12;

/// `n` spaces.
pub open spec fn spaces(n: int) -> Seq<char> {
    Seq::new(
        if n > 0 {
            n as nat
        } else {
            0
        },
        |i: int| ' ',
    )
}

/// `text` with spaces behind it up to `width` characters. A longer text is
/// left as it is.
pub open spec fn filled_behind(text: Seq<char>, width: int) -> Seq<char> {
    text + spaces(width - text.len())
}

/// `text` with spaces before it up to `width` characters. A longer text is
/// left as it is.
pub open spec fn filled_before(text: Seq<char>, width: int) -> Seq<char> {
    spaces(width - text.len()) + text
}

/// The line that the log shows of a diagnostic: its name, filled up to 32
/// characters, a colon and its value with its unit. Where the average is
/// known, the value stands at the right of 12 characters with one
/// character kept for the unit, and the average follows in brackets.
pub open spec fn log_line(
    name: Seq<char>,
    suffix: Seq<char>,
    value: Seq<char>,
    average: Option<Seq<char>>,
) -> Seq<char> {
    match average {
        Some(average) => filled_behind(name, MAX_LOG_NAME_WIDTH as int) + ": "@ + filled_before(
            value + filled_behind(suffix, 1),
            LOG_VALUE_WIDTH as int,
        ) + " (avg "@ + average + suffix + ")"@,
        None => filled_behind(name, MAX_LOG_NAME_WIDTH as int) + ": "@ + value + suffix,
    }
}

/// Adds spaces to `line` until `count` characters of a text of `len`
/// characters are made up to `width`.
fn fill(line: &mut String, len: usize, width: usize)
    ensures
        final(line)@ == old(line)@ + spaces(width - len),
{
    proof {
        reveal_strlit(" ");
    }
    let mut i: usize = len;
    assert(line@ + spaces(0) =~= line@);
    while i < width
        invariant
            len <= i,
            i <= width || i == len,
            line@ == old(line)@ + spaces(i - len),
            " "@ == seq![' '],
        decreases width - i,
    {
        line.append(" ");
        assert(line@ =~= old(line)@ + spaces(i + 1 - len));
        i += 1;
    }
    assert(spaces(i - len) =~= spaces(width - len));
}

impl LogDiagnosticsPlugin {
    /// The line that the log shows of a diagnostic: see [`log_line`]. The
    /// value and its average come as they are written.
    pub fn log_diagnostic(name: &str, suffix: &str, value: &str, average: Option<&str>) -> (line:
        String)
        ensures
            line@ == log_line(
                name@,
                suffix@,
                value@,
                match average {
                    Some(a) => Some(a@),
                    None => None,
                },
            ),
    {
        let mut line = String::new();
        assert(line@ + name@ =~= name@);
        line.append(name);
        fill(&mut line, name.unicode_len(), MAX_LOG_NAME_WIDTH);
        line.append(": ");
        match average {
            Some(average) => {
                let mut shown = String::new();
                assert(shown@ + value@ =~= value@);
                shown.append(value);
                shown.append(suffix);
                fill(&mut shown, suffix.unicode_len(), 1);
                assert(shown@ =~= value@ + filled_behind(suffix@, 1));
                fill(&mut line, shown.as_str().unicode_len(), LOG_VALUE_WIDTH);
                line.append(shown.as_str());
                line.append(" (avg ");
                line.append(average);
                line.append(suffix);
                line.append(")");
                assert(line@ =~= log_line(name@, suffix@, value@, Some(average@)));
            },
            None => {
                line.append(value);
                line.append(suffix);
                assert(line@ =~= log_line(name@, suffix@, value@, None));
            },
        }
        line
    }
}

/// A choice among the diagnostics.
#[derive(Debug)]
enum LogDiagnosticsFilter {
    Displayed(HashSet<u128>),
    Hidden(HashSet<u128>),
}

/// What a filter lets through.
pub enum Selection {
    /// Every diagnostic.
    All,
    /// These diagnostics and no others.
    Displayed(Set<u128>),
    /// Every diagnostic but these.
    Hidden(Set<u128>),
}

impl Selection {
    /// Whether the diagnostic `id` is let through.
    pub open spec fn lets_through(self, id: u128) -> bool {
        match self {
            Selection::All => true,
            Selection::Displayed(ids) => ids.contains(id),
            Selection::Hidden(ids) => !ids.contains(id),
        }
    }

    /// The selection that lets `id` through besides. `start` tells whether
    /// a selection that lets everything through is narrowed to `id` alone.
    pub open spec fn showing(self, id: u128, start: bool) -> Selection {
        match self {
            Selection::All => if start {
                Selection::Displayed(set![id])
            } else {
                Selection::All
            },
            Selection::Displayed(ids) => Selection::Displayed(ids.insert(id)),
            Selection::Hidden(ids) => Selection::Hidden(ids.remove(id)),
        }
    }

    /// The selection that holds `id` back besides. `start` tells whether
    /// a selection that lets everything through starts to hold `id` back.
    pub open spec fn hiding(self, id: u128, start: bool) -> Selection {
        match self {
            Selection::All => if start {
                Selection::Hidden(set![id])
            } else {
                Selection::All
            },
            Selection::Displayed(ids) => Selection::Displayed(ids.remove(id)),
            Selection::Hidden(ids) => Selection::Hidden(ids.insert(id)),
        }
    }
}

/// Which diagnostics are logged, if any.
#[derive(Debug)]
pub struct LogDiagnosticsConfig {
    enabled: bool,
    filter: Option<LogDiagnosticsFilter>,
}

impl Default for LogDiagnosticsConfig {
    fn default() -> (config: Self)
        ensures
            config.is_enabled(),
            config.selection() == Selection::All,
    {
        LogDiagnosticsConfig { enabled: true, filter: None }
    }
}

// Builders, for the set-up.
impl LogDiagnosticsConfig {
    /// Whether anything is logged.
    pub closed spec fn is_enabled(&self) -> bool {
        self.enabled
    }

    /// What the filter lets through.
    pub closed spec fn selection(&self) -> Selection {
        match self.filter {
            None => Selection::All,
            Some(LogDiagnosticsFilter::Displayed(ids)) => Selection::Displayed(ids@),
            Some(LogDiagnosticsFilter::Hidden(ids)) => Selection::Hidden(ids@),
        }
    }

    /// Whether the diagnostic `id` is logged.
    pub open spec fn logs(&self, id: DiagnosticId) -> bool {
        self.is_enabled() && self.selection().lets_through(id.0)
    }

    /// A configuration that logs every diagnostic.
    pub fn new() -> (config: Self)
        ensures
            config.is_enabled(),
            config.selection() == Selection::All,
    {
        LogDiagnosticsConfig { enabled: true, filter: None }
    }

    /// Turns the logging off, and keeps the filter.
    pub fn disabled(&mut self) -> (ret: &mut Self)
        ensures
            !ret.is_enabled(),
            ret.selection() == old(self).selection(),
            *final(self) == *final(ret),
    {
        self.enabled = false;
        self
    }

    /// Lets `diagnostic_id` through. A configuration that logs every
    /// diagnostic is narrowed to this one.
    pub fn displaying(&mut self, diagnostic_id: DiagnosticId) -> (ret: &mut Self)
        ensures
            ret.is_enabled() == old(self).is_enabled(),
            ret.selection() == old(self).selection().showing(diagnostic_id.0, true),
            *final(self) == *final(ret),
    {
        self.show(diagnostic_id, true);
        self
    }

    /// Holds `diagnostic_id` back. A configuration that logs every
    /// diagnostic logs every one but this from now on.
    pub fn hiding(&mut self, diagnostic_id: DiagnosticId) -> (ret: &mut Self)
        ensures
            ret.is_enabled() == old(self).is_enabled(),
            ret.selection() == old(self).selection().hiding(diagnostic_id.0, true),
            *final(self) == *final(ret),
    {
        self.withhold(diagnostic_id, true);
        self
    }

    fn show(&mut self, diagnostic_id: DiagnosticId, start: bool)
        ensures
            final(self).is_enabled() == old(self).is_enabled(),
            final(self).selection() == old(self).selection().showing(diagnostic_id.0, start),
    {
        match &mut self.filter {
            None => {
                if start {
                    let mut ids: HashSet<u128> = HashSet::new();
                    ids.insert(diagnostic_id.0);
                    assert(ids@ =~= set![diagnostic_id.0]);
                    self.filter = Some(LogDiagnosticsFilter::Displayed(ids));
                }
            },
            Some(LogDiagnosticsFilter::Displayed(ids)) => {
                ids.insert(diagnostic_id.0);
            },
            Some(LogDiagnosticsFilter::Hidden(ids)) => {
                ids.remove(&diagnostic_id.0);
            },
        }
    }

    fn withhold(&mut self, diagnostic_id: DiagnosticId, start: bool)
        ensures
            final(self).is_enabled() == old(self).is_enabled(),
            final(self).selection() == old(self).selection().hiding(diagnostic_id.0, start),
    {
        match &mut self.filter {
            None => {
                if start {
                    let mut ids: HashSet<u128> = HashSet::new();
                    ids.insert(diagnostic_id.0);
                    assert(ids@ =~= set![diagnostic_id.0]);
                    self.filter = Some(LogDiagnosticsFilter::Hidden(ids));
                }
            },
            Some(LogDiagnosticsFilter::Displayed(ids)) => {
                ids.remove(&diagnostic_id.0);
            },
            Some(LogDiagnosticsFilter::Hidden(ids)) => {
                ids.insert(diagnostic_id.0);
            },
        }
    }
}

// Changes while the application runs.
impl LogDiagnosticsConfig {
    /// Turns the logging off.
    pub fn disable(&mut self)
        ensures
            !final(self).is_enabled(),
            final(self).selection() == old(self).selection(),
    {
        self.enabled = false;
    }

    /// Turns the logging on.
    pub fn enable(&mut self)
        ensures
            final(self).is_enabled(),
            final(self).selection() == old(self).selection(),
    {
        self.enabled = true;
    }

    /// Turns the logging on if it is off, and off if it is on.
    pub fn toggle(&mut self)
        ensures
            final(self).is_enabled() == !old(self).is_enabled(),
            final(self).selection() == old(self).selection(),
    {
        self.enabled = !self.enabled;
    }

    /// Lets `diagnostic_id` through. A configuration that logs every
    /// diagnostic stays as it is.
    pub fn display(&mut self, diagnostic_id: DiagnosticId)
        ensures
            final(self).is_enabled() == old(self).is_enabled(),
            final(self).selection() == old(self).selection().showing(diagnostic_id.0, false),
    {
        self.show(diagnostic_id, false);
    }

    /// Lets `diagnostic_id` through and nothing else.
    pub fn display_only(&mut self, diagnostic_id: DiagnosticId)
        ensures
            final(self).is_enabled() == old(self).is_enabled(),
            final(self).selection() == Selection::Displayed(set![diagnostic_id.0]),
    {
        let mut ids: HashSet<u128> = HashSet::new();
        ids.insert(diagnostic_id.0);
        assert(ids@ =~= set![diagnostic_id.0]);
        self.filter = Some(LogDiagnosticsFilter::Displayed(ids));
    }

    /// Holds `diagnostic_id` back. A configuration that logs every
    /// diagnostic stays as it is.
    pub fn hide_diagnostic(&mut self, diagnostic_id: DiagnosticId)
        ensures
            final(self).is_enabled() == old(self).is_enabled(),
            final(self).selection() == old(self).selection().hiding(diagnostic_id.0, false),
    {
        self.withhold(diagnostic_id, false);
    }

    /// Holds `diagnostic_id` back and nothing else.
    pub fn hide_only(&mut self, diagnostic_id: DiagnosticId)
        ensures
            final(self).is_enabled() == old(self).is_enabled(),
            final(self).selection() == Selection::Hidden(set![diagnostic_id.0]),
    {
        let mut ids: HashSet<u128> = HashSet::new();
        ids.insert(diagnostic_id.0);
        assert(ids@ =~= set![diagnostic_id.0]);
        self.filter = Some(LogDiagnosticsFilter::Hidden(ids));
    }

    /// Lets every diagnostic through again.
    pub fn clear_filter(&mut self)
        ensures
            final(self).is_enabled() == old(self).is_enabled(),
            final(self).selection() == Selection::All,
    {
        self.filter = None;
    }

    /// Whether the diagnostic `id` is logged: the logging is on and the
    /// filter lets it through.
    pub fn is_logged(&self, id: DiagnosticId) -> (logged: bool)
        ensures
            logged == self.logs(id),
    {
        if !self.enabled {
            return false;
        }
        match &self.filter {
            None => true,
            Some(LogDiagnosticsFilter::Displayed(ids)) => ids.contains(&id.0),
            Some(LogDiagnosticsFilter::Hidden(ids)) => !ids.contains(&id.0),
        }
    }

    /// Those of `known` that are logged, in their order.
    pub fn logged(&self, known: &Vec<DiagnosticId>) -> (chosen: Vec<DiagnosticId>)
        ensures
            chosen@ == known@.filter(|id: DiagnosticId| self.logs(id)),
    {
        let ghost keep = |id: DiagnosticId| self.logs(id);
        let mut chosen: Vec<DiagnosticId> = Vec::new();
        let n = known.len();
        let mut i: usize = 0;
        proof {
            assert(known@.take(0) =~= Seq::<DiagnosticId>::empty());
            reveal(Seq::filter);
        }
        while i < n
            invariant
                n == known@.len(),
                i <= n,
                keep == |id: DiagnosticId| self.logs(id),
                chosen@ == known@.take(i as int).filter(keep),
            decreases n - i,
        {
            proof {
                reveal(Seq::filter);
                assert(known@.take(i + 1).drop_last() =~= known@.take(i as int));
                assert(known@.take(i + 1).last() == known@[i as int]);
            }
            if self.is_logged(known[i]) {
                chosen.push(known[i]);
            }
            i += 1;
        }
        assert(known@.take(n as int) =~= known@);
        chosen
    }
}

} // verus!
