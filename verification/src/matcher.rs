//! Deciding which log lines a user asked for: by keyword, by level, and by their combinations.

use vstd::prelude::*;
use crate::model::{LogLevel, LogRecord, LogRecordView};
use vstd::utf8::is_ascii_chars;
use crate::text::{
    contains_str, has_substring, lemma_ascii_lowercase_keeps_substring, lowercase,
    str_to_lowercase,
};

verus! {

/// `keyword` occurs in `line`; with `ignore_case`, it does so once both are lower-cased.
pub open spec fn line_matches_spec(line: Seq<char>, keyword: Seq<char>, ignore_case: bool) -> bool {
    if ignore_case {
        has_substring(str_to_lowercase(line), str_to_lowercase(keyword))
    } else {
        has_substring(line, keyword)
    }
}

/// Tests whether `keyword` occurs in `line`, comparing lower-cased text when `ignore_case` is
/// set. On ASCII text, setting `ignore_case` never loses a match.
pub fn line_matches(line: &str, keyword: &str, ignore_case: bool) -> (r: bool)
    ensures
        r == line_matches_spec(line@, keyword@, ignore_case),
        ignore_case && is_ascii_chars(line@) && is_ascii_chars(keyword@) && line_matches_spec(
            line@,
            keyword@,
            false,
        ) ==> r,
{
    let keyword_for_match = lowercase(keyword);
    if ignore_case {
        let line_for_match = lowercase(line);
        proof {
            if is_ascii_chars(line@) && is_ascii_chars(keyword@) && has_substring(line@, keyword@) {
                lemma_ascii_lowercase_keeps_substring(line@, keyword@);
            }
        }
        contains_str(line_for_match.as_str(), keyword_for_match.as_str())
    } else {
        contains_str(line, keyword)
    }
}

/// A test on a log line together with the record parsed from it.
pub trait Filter {
    /// Whether the filter lets the line through.
    spec fn accepts(&self, line: Seq<char>, record: LogRecordView) -> bool;

    fn matches(&self, line: &str, record: &LogRecord) -> (r: bool)
        ensures
            r == self.accepts(line@, record@),
    ;
}

/// Lets through the lines in which a keyword occurs.
pub struct KeywordFilter {
    keyword: String,
    ignore_case: bool,
}

/// Lets through the lines whose record has a given level.
pub struct LogLevelFilter {
    level: LogLevel,
}

/// Lets through the lines that both filters let through.
pub struct AndFilter<Left, Right> {
    left: Left,
    right: Right,
}

/// Lets through the lines that either filter lets through.
pub struct OrFilter<Left, Right> {
    left: Left,
    right: Right,
}

impl KeywordFilter {
    pub closed spec fn keyword(&self) -> Seq<char> {
        self.keyword@
    }

    pub closed spec fn ignores_case(&self) -> bool {
        self.ignore_case
    }

    pub fn new(keyword: String, ignore_case: bool) -> (r: Self)
        ensures
            r.keyword() == keyword@,
            r.ignores_case() == ignore_case,
    {
        Self { keyword, ignore_case }
    }
}

impl LogLevelFilter {
    pub closed spec fn level(&self) -> LogLevel {
        self.level
    }

    pub fn new(level: LogLevel) -> (r: Self)
        ensures
            r.level() == level,
    {
        Self { level }
    }
}

impl<Left: Filter, Right: Filter> AndFilter<Left, Right> {
    pub closed spec fn left(&self) -> Left {
        self.left
    }

    pub closed spec fn right(&self) -> Right {
        self.right
    }

    pub fn new(left: Left, right: Right) -> (r: Self)
        ensures
            r.left() == left,
            r.right() == right,
    {
        Self { left, right }
    }
}

impl<Left: Filter, Right: Filter> OrFilter<Left, Right> {
    pub closed spec fn left(&self) -> Left {
        self.left
    }

    pub closed spec fn right(&self) -> Right {
        self.right
    }

    pub fn new(left: Left, right: Right) -> (r: Self)
        ensures
            r.left() == left,
            r.right() == right,
    {
        Self { left, right }
    }
}

impl Filter for KeywordFilter {
    open spec fn accepts(&self, line: Seq<char>, record: LogRecordView) -> bool {
        line_matches_spec(line, self.keyword(), self.ignores_case())
    }

    fn matches(&self, line: &str, record: &LogRecord) -> (r: bool) {
        line_matches(line, self.keyword.as_str(), self.ignore_case)
    }
}

impl Filter for LogLevelFilter {
    open spec fn accepts(&self, line: Seq<char>, record: LogRecordView) -> bool {
        record.level == self.level()
    }

    fn matches(&self, line: &str, record: &LogRecord) -> (r: bool) {
        record.level == self.level
    }
}

impl<Left: Filter, Right: Filter> Filter for AndFilter<Left, Right> {
    open spec fn accepts(&self, line: Seq<char>, record: LogRecordView) -> bool {
        self.left().accepts(line, record) && self.right().accepts(line, record)
    }

    fn matches(&self, line: &str, record: &LogRecord) -> (r: bool) {
        self.left.matches(line, record) && self.right.matches(line, record)
    }
}

impl<Left: Filter, Right: Filter> Filter for OrFilter<Left, Right> {
    open spec fn accepts(&self, line: Seq<char>, record: LogRecordView) -> bool {
        self.left().accepts(line, record) || self.right().accepts(line, record)
    }

    fn matches(&self, line: &str, record: &LogRecord) -> (r: bool) {
        self.left.matches(line, record) || self.right.matches(line, record)
    }
}

/// Law: without `ignore_case` a line matches exactly when the keyword occurs in it; with it,
/// exactly when the lower-cased keyword occurs in the lower-cased line.
pub proof fn law_line_match_is_substring(line: Seq<char>, keyword: Seq<char>)
    ensures
        line_matches_spec(line, keyword, false) == has_substring(line, keyword),
        line_matches_spec(line, keyword, true) == has_substring(
            str_to_lowercase(line),
            str_to_lowercase(keyword),
        ),
{
}

/// Law: a keyword filter lets a line through exactly when its keyword matches the line, with
/// its own case setting; the record plays no part.
pub proof fn law_keyword_filter(filter: KeywordFilter, line: Seq<char>, record: LogRecordView)
    ensures
        filter.accepts(line, record) == line_matches_spec(
            line,
            filter.keyword(),
            filter.ignores_case(),
        ),
{
}

/// Law: a level filter lets a line through exactly when its record has the filter's level;
/// the text of the line plays no part.
pub proof fn law_level_filter(filter: LogLevelFilter, line: Seq<char>, record: LogRecordView)
    ensures
        filter.accepts(line, record) == (record.level == filter.level()),
{
}

/// Law: an AND filter lets a line through exactly when both its parts do.
pub proof fn law_and_filter<Left: Filter, Right: Filter>(
    filter: AndFilter<Left, Right>,
    line: Seq<char>,
    record: LogRecordView,
)
    ensures
        filter.accepts(line, record) == (filter.left().accepts(line, record) && filter.right().accepts(
            line,
            record,
        )),
{
}

/// Law: an OR filter lets a line through exactly when at least one of its parts does.
pub proof fn law_or_filter<Left: Filter, Right: Filter>(
    filter: OrFilter<Left, Right>,
    line: Seq<char>,
    record: LogRecordView,
)
    ensures
        filter.accepts(line, record) == (filter.left().accepts(line, record) || filter.right().accepts(
            line,
            record,
        )),
{
}

} // verus!
