//! Going through a log line by line: which lines are shown, and the counts reported at the end.

use vstd::prelude::*;
use crate::matcher::Filter;
use crate::model::LogLevel;
use crate::parser::{parse_log_line, parse_log_line_spec};

verus! {

/// What becomes of one line of the log.
#[derive(Debug, Clone, Copy, PartialEq, Eq, Structural)]
pub enum LineOutcome {
    /// Well formed and let through by the filter: the line is shown and counted under its level.
    Matched(LogLevel),
    /// Well formed, but the filter holds it back.
    Skipped,
    /// Not a well-formed log line: the run stops with a parse error.
    Invalid,
}

/// What a filter makes of a line.
pub open spec fn outcome_of<F: Filter>(filter: F, line: Seq<char>) -> LineOutcome {
    match parse_log_line_spec(line) {
        None => LineOutcome::Invalid,
        Some(record) => if filter.accepts(line, record) {
            LineOutcome::Matched(record.level)
        } else {
            LineOutcome::Skipped
        },
    }
}

/// The counts of the lines shown so far, in all and per level.
pub struct LineTally {
    matched: usize,
    info: usize,
    warn: usize,
    error: usize,
}

impl LineTally {
    pub closed spec fn matched_count(&self) -> nat {
        self.matched as nat
    }

    pub closed spec fn count_of(&self, level: LogLevel) -> nat {
        match level {
            LogLevel::Info => self.info as nat,
            LogLevel::Warn => self.warn as nat,
            LogLevel::Error => self.error as nat,
        }
    }

    /// Every line shown is counted under exactly one level.
    pub open spec fn consistent(&self) -> bool {
        self.matched_count() == self.count_of(LogLevel::Info) + self.count_of(LogLevel::Warn)
            + self.count_of(LogLevel::Error)
    }

    /// A tally with nothing counted.
    pub fn new() -> (t: Self)
        ensures
            t.matched_count() == 0,
            t.count_of(LogLevel::Info) == 0,
            t.count_of(LogLevel::Warn) == 0,
            t.count_of(LogLevel::Error) == 0,
            t.consistent(),
    {
        LineTally { matched: 0, info: 0, warn: 0, error: 0 }
    }

    pub fn matched(&self) -> (n: usize)
        ensures
            n == self.matched_count(),
    {
        self.matched
    }

    pub fn info(&self) -> (n: usize)
        ensures
            n == self.count_of(LogLevel::Info),
    {
        self.info
    }

    pub fn warn(&self) -> (n: usize)
        ensures
            n == self.count_of(LogLevel::Warn),
    {
        self.warn
    }

    pub fn error(&self) -> (n: usize)
        ensures
            n == self.count_of(LogLevel::Error),
    {
        self.error
    }

    /// Decides what becomes of `line` and counts it when it is shown.
    pub fn observe<F: Filter>(&mut self, line: &str, filter: &F) -> (o: LineOutcome)
        requires
            old(self).consistent(),
            old(self).matched_count() < usize::MAX,
        ensures
            o == outcome_of(*filter, line@),
            final(self).consistent(),
            match o {
                LineOutcome::Matched(level) => {
                    &&& final(self).matched_count() == old(self).matched_count() + 1
                    &&& final(self).count_of(level) == old(self).count_of(level) + 1
                    &&& forall|other: LogLevel|
                        other != level ==> final(self).count_of(other) == old(self).count_of(
                            other,
                        )
                },
                _ => *final(self) == *old(self),
            },
    {
        match parse_log_line(line) {
            None => LineOutcome::Invalid,
            Some(record) => {
                if filter.matches(line, &record) {
                    self.matched = self.matched + 1;
                    match record.level {
                        LogLevel::Info => self.info = self.info + 1,
                        LogLevel::Warn => self.warn = self.warn + 1,
                        LogLevel::Error => self.error = self.error + 1,
                    }
                    LineOutcome::Matched(record.level)
                } else {
                    LineOutcome::Skipped
                }
            },
        }
    }
}

/// Law: a line that is not a well-formed log line stops the run with a parse error, whatever
/// the filter would say of it.
pub proof fn law_malformed_line_is_invalid<F: Filter>(filter: F, line: Seq<char>)
    requires
        parse_log_line_spec(line) is None,
    ensures
        outcome_of(filter, line) == LineOutcome::Invalid,
{
}

/// Law: a well-formed line is shown, under the level it was parsed with, exactly when the
/// filter lets it through together with its record; otherwise it is held back. It never stops
/// the run.
pub proof fn law_well_formed_line_is_shown_or_skipped<F: Filter>(filter: F, line: Seq<char>)
    requires
        parse_log_line_spec(line) is Some,
    ensures
        ({
            let record = parse_log_line_spec(line)->0;
            &&& filter.accepts(line, record) ==> outcome_of(filter, line) == LineOutcome::Matched(
                record.level,
            )
            &&& !filter.accepts(line, record) ==> outcome_of(filter, line) == LineOutcome::Skipped
        }),
{
}

} // verus!
