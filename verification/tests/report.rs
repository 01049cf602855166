use loglens::matcher::{AndFilter, KeywordFilter, LogLevelFilter};
use loglens::model::LogLevel;
use loglens::report::{LineOutcome, LineTally};

const FILTER_LOG: [&str; 4] = [
    "INFO retry request",
    "WARN timeout",
    "ERROR retry failed",
    "INFO started",
];

#[test]
fn tally_counts_matched_lines_per_level() {
    let filter = KeywordFilter::new("retry".to_string(), false);
    let mut tally = LineTally::new();
    let outcomes: Vec<LineOutcome> = FILTER_LOG.iter().map(|l| tally.observe(l, &filter)).collect();
    assert_eq!(
        outcomes,
        vec![
            LineOutcome::Matched(LogLevel::Info),
            LineOutcome::Skipped,
            LineOutcome::Matched(LogLevel::Error),
            LineOutcome::Skipped
        ]
    );
    assert_eq!((tally.matched(), tally.info(), tally.warn(), tally.error()), (2, 1, 0, 1));
}

#[test]
fn tally_with_level_filter() {
    let filter = AndFilter::new(
        KeywordFilter::new("retry".to_string(), false),
        LogLevelFilter::new(LogLevel::Info),
    );
    let mut tally = LineTally::new();
    for line in FILTER_LOG {
        tally.observe(line, &filter);
    }
    assert_eq!((tally.matched(), tally.info(), tally.warn(), tally.error()), (1, 1, 0, 0));
}

#[test]
fn tally_ignore_case_keyword() {
    let filter = KeywordFilter::new("RETRY".to_string(), true);
    let mut tally = LineTally::new();
    for line in FILTER_LOG {
        tally.observe(line, &filter);
    }
    assert_eq!(tally.matched(), 2);
    let strict = KeywordFilter::new("RETRY".to_string(), false);
    let mut none = LineTally::new();
    for line in FILTER_LOG {
        none.observe(line, &strict);
    }
    assert_eq!(none.matched(), 0);
}

#[test]
fn invalid_line_is_reported_and_not_counted() {
    let filter = KeywordFilter::new("".to_string(), false);
    let mut tally = LineTally::new();
    assert_eq!(tally.observe("DEBUG cache warmed", &filter), LineOutcome::Invalid);
    assert_eq!(tally.observe("INFO  retry request", &filter), LineOutcome::Invalid);
    assert_eq!(tally.matched(), 0);
}

#[test]
fn matched_is_the_sum_of_the_levels() {
    let filter = KeywordFilter::new("".to_string(), false);
    let mut tally = LineTally::new();
    for line in ["INFO a", "WARN b", "ERROR c", "1 WARN d", "bad", "WARN e"] {
        tally.observe(line, &filter);
        assert_eq!(tally.matched(), tally.info() + tally.warn() + tally.error());
    }
    assert_eq!((tally.matched(), tally.info(), tally.warn(), tally.error()), (5, 1, 3, 1));
}
