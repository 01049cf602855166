//! Parsing of log lines: `LEVEL message` or `TIMESTAMP LEVEL message`.

use vstd::prelude::*;
use crate::model::{LogLevel, LogRecord, LogRecordView};
use crate::text::{chars_of, str_eq};

verus! {

broadcast use vstd::string::group_string_axioms;

/// The word that names a level in a log line.
pub open spec fn level_word(level: LogLevel) -> Seq<char> {
    match level {
        LogLevel::Info => "INFO"@,
        LogLevel::Warn => "WARN"@,
        LogLevel::Error => "ERROR"@,
    }
}

/// The level that a word names, if it names one.
pub open spec fn level_of_word(word: Seq<char>) -> Option<LogLevel> {
    if word == "INFO"@ {
        Some(LogLevel::Info)
    } else if word == "WARN"@ {
        Some(LogLevel::Warn)
    } else if word == "ERROR"@ {
        Some(LogLevel::Error)
    } else {
        None
    }
}

/// `i` is the position of the first space in `s`.
pub open spec fn is_first_space(s: Seq<char>, i: int) -> bool {
    &&& 0 <= i < s.len()
    &&& s[i] == ' '
    &&& forall|j: int| 0 <= j < i ==> s[j] != ' '
}

/// `s` cut at its first space, the space left out, as `str::split_once(' ')` does.
pub open spec fn split_at_first_space(s: Seq<char>) -> Option<(Seq<char>, Seq<char>)> {
    if exists|i: int| is_first_space(s, i) {
        let i = choose|i: int| is_first_space(s, i);
        Some((s.take(i), s.skip(i + 1)))
    } else {
        None
    }
}

pub open spec fn is_ascii_digit(c: char) -> bool {
    '0' <= c && c <= '9'
}

pub open spec fn digit_value(c: char) -> int {
    (c as int) - ('0' as int)
}

pub open spec fn all_ascii_digits(s: Seq<char>) -> bool {
    forall|i: int| 0 <= i < s.len() ==> is_ascii_digit(#[trigger] s[i])
}

/// The number that a string of decimal digits denotes.
pub open spec fn decimal_value(s: Seq<char>) -> int
    decreases s.len(),
{
    if s.len() == 0 {
        0
    } else {
        decimal_value(s.drop_last()) * 10 + digit_value(s.last())
    }
}

/// The digits of an unsigned number: `s` without one leading `+`.
pub open spec fn unsigned_digits(s: Seq<char>) -> Seq<char> {
    if s.len() > 0 && s[0] == '+' {
        s.drop_first()
    } else {
        s
    }
}

/// What `str::parse::<u64>` accepts: an optional `+`, then at least one ASCII digit, denoting
/// a number that fits in a `u64`.
pub open spec fn parse_u64_spec(s: Seq<char>) -> Option<u64> {
    let digits = unsigned_digits(s);
    if digits.len() > 0 && all_ascii_digits(digits) && decimal_value(digits) <= u64::MAX {
        Some(decimal_value(digits) as u64)
    } else {
        None
    }
}

/// The record that a log line denotes, if it is well formed.
///
/// The line is cut at its first space. When the part before it is a number, that is the
/// timestamp and the rest is cut again at its first space. The two parts then are the level
/// word and the message; the message must be non-empty and must not start with a space.
pub open spec fn parse_log_line_spec(line: Seq<char>) -> Option<LogRecordView> {
    match split_at_first_space(line) {
        None => None,
        Some((first, remainder)) => {
            let timestamp = parse_u64_spec(first);
            let level_message = if timestamp is Some {
                split_at_first_space(remainder)
            } else {
                Some((first, remainder))
            };
            match level_message {
                None => None,
                Some((word, message)) => {
                    if message.len() == 0 || message[0] == ' ' {
                        None
                    } else {
                        match level_of_word(word) {
                            Some(level) => Some(
                                LogRecordView {
                                    unix_timestamp_seconds: timestamp,
                                    level,
                                    message,
                                },
                            ),
                            None => None,
                        }
                    }
                },
            }
        },
    }
}

/// Reads a level word: `INFO`, `WARN` or `ERROR`, exactly.
pub fn parse_log_level(word: &str) -> (r: Option<LogLevel>)
    ensures
        r == level_of_word(word@),
{
    if str_eq(word, "INFO") {
        Some(LogLevel::Info)
    } else if str_eq(word, "WARN") {
        Some(LogLevel::Warn)
    } else if str_eq(word, "ERROR") {
        Some(LogLevel::Error)
    } else {
        None
    }
}

proof fn lemma_first_space_unique(s: Seq<char>, i: int, j: int)
    requires
        is_first_space(s, i),
        is_first_space(s, j),
    ensures
        i == j,
{
    if i < j {
        assert(s[i] != ' ');
    } else if j < i {
        assert(s[j] != ' ');
    }
}

/// The result of cutting at the first space, when that space is at `i`.
proof fn lemma_split_at(s: Seq<char>, i: int)
    requires
        is_first_space(s, i),
    ensures
        split_at_first_space(s) == Some((s.take(i), s.skip(i + 1))),
{
    let k = choose|k: int| is_first_space(s, k);
    lemma_first_space_unique(s, i, k);
}

/// Cuts a line at its first space, the space left out.
pub fn split_log_line<'a>(line: &'a str) -> (r: Option<(&'a str, &'a str)>)
    ensures
        match r {
            Some((a, b)) => split_at_first_space(line@) == Some((a@, b@)),
            None => split_at_first_space(line@) is None,
        },
{
    let v = chars_of(line);
    let n = v.len();
    let mut i: usize = 0;
    while i < n
        invariant
            n == v@.len(),
            v@ == line@,
            i <= n,
            forall|j: int| 0 <= j < i ==> v@[j] != ' ',
        decreases n - i,
    {
        if v[i] == ' ' {
            proof {
                lemma_split_at(line@, i as int);
            }
            let first = line.substring_char(0, i);
            let rest = line.substring_char(i + 1, n);
            return Some((first, rest));
        }
        i = i + 1;
    }
    None
}

proof fn lemma_decimal_prefix_le(s: Seq<char>, k: int)
    requires
        all_ascii_digits(s),
        0 <= k <= s.len(),
    ensures
        0 <= decimal_value(s.take(k)) <= decimal_value(s),
    decreases s.len(),
{
    if s.len() > 0 {
        let t = s.drop_last();
        assert(all_ascii_digits(t)) by {
            assert forall|i: int| 0 <= i < t.len() implies is_ascii_digit(#[trigger] t[i]) by {
                assert(t[i] == s[i]);
            }
        }
        if k < s.len() {
            assert(t.take(k) =~= s.take(k));
            lemma_decimal_prefix_le(t, k);
        } else {
            assert(s.take(k) =~= s);
            lemma_decimal_prefix_le(t, 0);
        }
        lemma_decimal_prefix_le(t, t.len() as int);
        assert(t.take(t.len() as int) =~= t);
        assert(is_ascii_digit(s[s.len() - 1]));
    } else {
        assert(s.take(k) =~= s);
    }
}

/// Reads an unsigned decimal number, as `str::parse::<u64>` does.
pub fn parse_u64(s: &str) -> (r: Option<u64>)
    ensures
        r == parse_u64_spec(s@),
{
    let v = chars_of(s);
    let n = v.len();
    let start: usize = if n > 0 && v[0] == '+' {
        1
    } else {
        0
    };
    let ghost digits = unsigned_digits(s@);
    assert(digits =~= v@.subrange(start as int, n as int));
    if start == n {
        return None;
    }
    let mut value: u64 = 0;
    let mut k: usize = start;
    while k < n
        invariant
            n == v@.len(),
            start <= k <= n,
            v@ == s@,
            digits == unsigned_digits(s@),
            digits == v@.subrange(start as int, n as int),
            value == decimal_value(digits.take(k - start)),
            all_ascii_digits(digits.take(k - start)),
        decreases n - k,
    {
        let c = v[k];
        if !('0' <= c && c <= '9') {
            assert(digits[k - start] == c);
            assert(!is_ascii_digit(digits[k - start]));
            return None;
        }
        let d: u64 = ((c as u32) - ('0' as u32)) as u64;
        let ghost prefix = digits.take(k - start);
        let ghost next = digits.take(k + 1 - start);
        assert(next.drop_last() =~= prefix);
        assert(next.last() == c);
        assert(decimal_value(next) == decimal_value(prefix) * 10 + digit_value(c));
        assert(digit_value(c) == d);
        assert(all_ascii_digits(next)) by {
            assert forall|i: int| 0 <= i < next.len() implies is_ascii_digit(#[trigger] next[i]) by {
                if i < prefix.len() {
                    assert(next[i] == prefix[i]);
                }
            }
        }
        match value.checked_mul(10) {
            Some(t) => match t.checked_add(d) {
                Some(u) => {
                    value = u;
                },
                None => {
                    proof {
                        if all_ascii_digits(digits) {
                            lemma_decimal_prefix_le(digits, k + 1 - start);
                        }
                    }
                    return None;
                },
            },
            None => {
                proof {
                    if all_ascii_digits(digits) {
                        lemma_decimal_prefix_le(digits, k + 1 - start);
                    }
                }
                return None;
            },
        }
        k = k + 1;
    }
    assert(digits.take(n - start) =~= digits);
    Some(value)
}

/// Parses a log line into its record; `None` when the line is not well formed.
pub fn parse_log_line(line: &str) -> (r: Option<LogRecord>)
    ensures
        match r {
            Some(record) => parse_log_line_spec(line@) == Some(record@),
            None => parse_log_line_spec(line@) is None,
        },
{
    let split_result = split_log_line(line);
    let (first, remainder) = match split_result {
        Some(parts) => parts,
        None => {
            return None;
        },
    };
    let timestamp = parse_u64(first);
    let level_message = match timestamp {
        Some(_) => split_log_line(remainder),
        None => Some((first, remainder)),
    };
    match level_message {
        Some((word, message)) => {
            let message_len = message.unicode_len();
            if message_len == 0 {
                return None;
            }
            if message.get_char(0) == ' ' {
                return None;
            }
            match parse_log_level(word) {
                Some(level) => Some(
                    LogRecord { unix_timestamp_seconds: timestamp, level, message: message.to_owned() },
                ),
                None => None,
            }
        },
        None => None,
    }
}

/// Law: the level words are `INFO`, `WARN` and `ERROR`, one for each level; none is empty,
/// none holds a space, none starts with a digit or `+`, and each reads back as its own level.
pub proof fn law_level_words(level: LogLevel)
    ensures
        level_word(level).len() > 0,
        forall|j: int| 0 <= j < level_word(level).len() ==> level_word(level)[j] != ' ',
        !is_ascii_digit(level_word(level)[0]),
        level_word(level)[0] != '+',
        level_of_word(level_word(level)) == Some(level),
        level_word(LogLevel::Info) == "INFO"@,
        level_word(LogLevel::Warn) == "WARN"@,
        level_word(LogLevel::Error) == "ERROR"@,
{
    reveal_strlit("INFO");
    reveal_strlit("WARN");
    reveal_strlit("ERROR");
    assert("INFO"@ != "WARN"@) by {
        assert("INFO"@[0] != "WARN"@[0]);
    }
    assert("INFO"@ != "ERROR"@) by {
        assert("INFO"@.len() != "ERROR"@.len());
    }
    assert("WARN"@ != "ERROR"@) by {
        assert("WARN"@.len() != "ERROR"@.len());
    }
}

/// Law: cutting `a + " " + b` at its first space gives `a` and `b` back when `a` holds no
/// space.
pub proof fn law_split_joined(a: Seq<char>, b: Seq<char>)
    requires
        forall|j: int| 0 <= j < a.len() ==> a[j] != ' ',
    ensures
        split_at_first_space(a + " "@ + b) == Some((a, b)),
{
    reveal_strlit(" ");
    let s = a + " "@ + b;
    let i = a.len() as int;
    assert(s[i] == ' ');
    assert forall|j: int| 0 <= j < i implies s[j] != ' ' by {
        assert(s[j] == a[j]);
    }
    assert(is_first_space(s, i));
    lemma_split_at(s, i);
    assert(s.take(i) =~= a);
    assert(s.skip(i + 1) =~= b);
}

/// Law: a line cut at its first space is the two parts joined by that space, the first part
/// holding no space.
pub proof fn law_split_rejoins(s: Seq<char>)
    requires
        split_at_first_space(s) is Some,
    ensures
        ({
            let (a, b) = split_at_first_space(s)->0;
            &&& s == a + " "@ + b
            &&& forall|j: int| 0 <= j < a.len() ==> a[j] != ' '
        }),
{
    reveal_strlit(" ");
    let i = choose|i: int| is_first_space(s, i);
    assert(s =~= s.take(i) + " "@ + s.skip(i + 1));
}

/// A word without digits is no number.
proof fn lemma_not_a_number(w: Seq<char>)
    requires
        w.len() > 0,
        !is_ascii_digit(w[0]),
        w[0] != '+',
    ensures
        parse_u64_spec(w) is None,
{
    assert(unsigned_digits(w) == w);
    assert(!all_ascii_digits(w)) by {
        assert(!is_ascii_digit(w[0]));
    }
}

/// Law: a line written as `LEVEL message` reads back as that level and message, without a
/// timestamp, for every message that is non-empty and does not start with a space.
pub proof fn law_parse_line_without_timestamp(level: LogLevel, message: Seq<char>)
    requires
        message.len() > 0,
        message[0] != ' ',
    ensures
        parse_log_line_spec(level_word(level) + " "@ + message) == Some(
            LogRecordView { unix_timestamp_seconds: None, level, message },
        ),
{
    let w = level_word(level);
    law_level_words(level);
    law_split_joined(w, message);
    lemma_not_a_number(w);
}

/// A word that reads as a number holds no space.
proof fn lemma_number_has_no_space(stamp: Seq<char>)
    requires
        parse_u64_spec(stamp) is Some,
    ensures
        forall|j: int| 0 <= j < stamp.len() ==> stamp[j] != ' ',
{
    let digits = unsigned_digits(stamp);
    assert forall|j: int| 0 <= j < stamp.len() implies stamp[j] != ' ' by {
        if stamp.len() > 0 && stamp[0] == '+' {
            if j > 0 {
                assert(stamp[j] == digits[j - 1]);
                assert(is_ascii_digit(digits[j - 1]));
            }
        } else {
            assert(is_ascii_digit(digits[j]));
        }
    }
}

/// Law: a word that names a level is that level's word.
pub proof fn law_word_names_its_level(word: Seq<char>, level: LogLevel)
    requires
        level_of_word(word) == Some(level),
    ensures
        word == level_word(level),
{
}

/// Law: a line written as `TIMESTAMP LEVEL message`, the timestamp any word that reads as a
/// `u64` (decimal digits, with or without one leading `+`), reads back as that timestamp,
/// level and message, for every message that is non-empty and does not start with a space.
pub proof fn law_parse_line_with_timestamp(stamp: Seq<char>, level: LogLevel, message: Seq<char>)
    requires
        parse_u64_spec(stamp) is Some,
        message.len() > 0,
        message[0] != ' ',
    ensures
        parse_log_line_spec(stamp + " "@ + level_word(level) + " "@ + message) == Some(
            LogRecordView { unix_timestamp_seconds: parse_u64_spec(stamp), level, message },
        ),
{
    let w = level_word(level);
    law_level_words(level);
    lemma_number_has_no_space(stamp);
    let rest = w + " "@ + message;
    assert(stamp + " "@ + w + " "@ + message =~= stamp + " "@ + rest);
    law_split_joined(stamp, rest);
    law_split_joined(w, message);
}

/// Law: a line that reads as a record is its level word and message joined by one space,
/// preceded, when it has a timestamp, by a word that reads as that timestamp and a space.
pub proof fn law_parsed_line_is_rebuilt(line: Seq<char>)
    requires
        parse_log_line_spec(line) is Some,
    ensures
        ({
            let r = parse_log_line_spec(line)->0;
            match r.unix_timestamp_seconds {
                None => line == level_word(r.level) + " "@ + r.message,
                Some(t) => exists|first: Seq<char>|
                    parse_u64_spec(first) == Some(t) && line == first + " "@ + level_word(r.level)
                        + " "@ + r.message,
            }
        }),
{
    let r = parse_log_line_spec(line)->0;
    assert(split_at_first_space(line) is Some);
    let (first, remainder) = split_at_first_space(line)->0;
    law_split_rejoins(line);
    if parse_u64_spec(first) is Some {
        let t = parse_u64_spec(first)->0;
        assert(split_at_first_space(remainder) is Some);
        let (word, message) = split_at_first_space(remainder)->0;
        assert(r.unix_timestamp_seconds == Some(t));
        assert(level_of_word(word) == Some(r.level));
        assert(r.message == message);
        law_split_rejoins(remainder);
        law_word_names_its_level(word, r.level);
        assert(line =~= first + " "@ + level_word(r.level) + " "@ + r.message);
    } else {
        assert(r.unix_timestamp_seconds is None);
        assert(level_of_word(first) == Some(r.level));
        assert(r.message == remainder);
        law_word_names_its_level(first, r.level);
    }
}

/// Law: a line is cut at a space exactly when it holds one.
pub proof fn law_split_needs_a_space(s: Seq<char>)
    ensures
        split_at_first_space(s) is None <==> !s.contains(' '),
{
    if s.contains(' ') {
        let k = choose|k: int| 0 <= k < s.len() && s[k] == ' ';
        lemma_first_space_exists(s, k);
    }
}

proof fn lemma_first_space_exists(s: Seq<char>, k: int)
    requires
        0 <= k < s.len(),
        s[k] == ' ',
    ensures
        exists|i: int| is_first_space(s, i),
    decreases k,
{
    if exists|j: int| 0 <= j < k && s[j] == ' ' {
        let j = choose|j: int| 0 <= j < k && s[j] == ' ';
        lemma_first_space_exists(s, j);
    } else {
        assert(is_first_space(s, k));
    }
}

/// Law: decimal digits are read positionally: appending a digit multiplies by ten and adds it.
pub proof fn law_decimal_positional(digits: Seq<char>, c: char)
    requires
        is_ascii_digit(c),
    ensures
        decimal_value(digits.push(c)) == decimal_value(digits) * 10 + ((c as int) - ('0' as int)),
        decimal_value(Seq::<char>::empty()) == 0,
{
    assert(digits.push(c).drop_last() =~= digits);
}

/// Law: decimal digits that denote a `u64` read as that number, with or without one leading
/// `+`; when they denote more than `u64::MAX` they read as nothing.
pub proof fn law_u64_of_digits(digits: Seq<char>)
    requires
        digits.len() > 0,
        all_ascii_digits(digits),
    ensures
        decimal_value(digits) <= u64::MAX ==> parse_u64_spec(digits) == Some(
            decimal_value(digits) as u64,
        ),
        decimal_value(digits) <= u64::MAX ==> parse_u64_spec(seq!['+'] + digits) == Some(
            decimal_value(digits) as u64,
        ),
        decimal_value(digits) > u64::MAX ==> parse_u64_spec(digits) is None,
        decimal_value(digits) > u64::MAX ==> parse_u64_spec(seq!['+'] + digits) is None,
{
    assert(is_ascii_digit(digits[0]));
    assert((seq!['+'] + digits).drop_first() =~= digits);
}

/// Law: a word reads as a number only when it is non-empty decimal digits, after at most one
/// leading `+`; anything else (a sign alone, a `-`, a letter, a space) is no number.
pub proof fn law_u64_needs_digits(s: Seq<char>)
    requires
        parse_u64_spec(s) is Some,
    ensures
        s.len() > 0,
        s != seq!['+'],
        forall|j: int| 0 <= j < s.len() ==> is_ascii_digit(#[trigger] s[j]) || (j == 0 && s[j] == '+'),
{
    let d = unsigned_digits(s);
    assert forall|j: int| 0 <= j < s.len() implies is_ascii_digit(#[trigger] s[j]) || (j == 0
        && s[j] == '+') by {
        if s[0] == '+' {
            if j > 0 {
                assert(s[j] == d[j - 1]);
            }
        } else {
            assert(s[j] == d[j]);
        }
    }
    if s =~= seq!['+'] {
        assert(d.len() == 0);
    }
}

/// Law: a record read from a line always has a level word before its message, and its message
/// is never empty and never starts with a space; a line without a space reads as nothing.
pub proof fn law_parse_shape(line: Seq<char>)
    ensures
        !line.contains(' ') ==> parse_log_line_spec(line) is None,
        parse_log_line_spec(line) is Some ==> {
            let r = parse_log_line_spec(line)->0;
            &&& r.message.len() > 0
            &&& r.message[0] != ' '
        },
{
    law_split_needs_a_space(line);
}

} // verus!
