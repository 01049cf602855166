//! The command line: `loglens <LOG_FILE> <KEYWORD> [--config <CONFIG_FILE>] [--ignore-case]
//! [--level <LOG_LEVEL>]`, read into a request, and the settings that its options give.

use vstd::prelude::*;
use crate::config::{resolve_ignore_case, resolve_ignore_case_spec};
use crate::model::LogLevel;
use crate::parser::{law_level_words, level_of_word, level_word, parse_log_level};
use crate::text::str_eq;

verus! {

broadcast use vstd::string::group_string_axioms;

/// An option given after the file and the keyword.
pub enum CliFlag {
    /// `--ignore-case`
    IgnoreCase,
    /// `--config <CONFIG_FILE>`
    Config(String),
    /// `--level <LOG_LEVEL>`
    Level(LogLevel),
}

/// A command-line option, its strings taken as character sequences.
pub enum CliFlagView {
    IgnoreCase,
    Config(Seq<char>),
    Level(LogLevel),
}

impl View for CliFlag {
    type V = CliFlagView;

    open spec fn view(&self) -> CliFlagView {
        match self {
            CliFlag::IgnoreCase => CliFlagView::IgnoreCase,
            CliFlag::Config(path) => CliFlagView::Config(path@),
            CliFlag::Level(level) => CliFlagView::Level(*level),
        }
    }
}

/// A request to filter a file: its path, the keyword, the options in the order given, and the
/// usage error that stopped the reading of options, if one did.
pub struct RunRequest {
    pub path: String,
    pub keyword: String,
    pub flags: Vec<CliFlag>,
    pub stop: Option<String>,
}

/// What the command line asks for.
pub enum CliRequest {
    /// `--help` in place of the file.
    Help,
    Run(RunRequest),
}

/// The settings that the options give.
#[derive(Debug, Clone, Copy, PartialEq, Eq, Structural)]
pub struct Settings {
    pub ignore_case: bool,
    pub level: Option<LogLevel>,
}

pub open spec fn arg_views(args: Seq<String>) -> Seq<Seq<char>> {
    args.map_values(|a: String| a@)
}

pub open spec fn flag_views(flags: Seq<CliFlag>) -> Seq<CliFlagView> {
    flags.map_values(|f: CliFlag| f@)
}

pub open spec fn string_views(strings: Seq<String>) -> Seq<Seq<char>> {
    strings.map_values(|s: String| s@)
}

/// The options read from `args[i..]`, and the usage error that stops the reading, if any.
pub open spec fn scan_flags(args: Seq<Seq<char>>, i: int) -> (Seq<CliFlagView>, Option<Seq<char>>)
    decreases args.len() - i,
{
    if i < 0 || i >= args.len() {
        (Seq::empty(), None)
    } else {
        let flag = args[i];
        if flag == "--ignore-case"@ {
            let (rest, stop) = scan_flags(args, i + 1);
            (seq![CliFlagView::IgnoreCase] + rest, stop)
        } else if flag == "--config"@ {
            if i + 1 < args.len() {
                let (rest, stop) = scan_flags(args, i + 2);
                (seq![CliFlagView::Config(args[i + 1])] + rest, stop)
            } else {
                (Seq::empty(), Some("pls input config file path"@))
            }
        } else if flag == "--level"@ {
            if i + 1 < args.len() {
                match level_of_word(args[i + 1]) {
                    Some(level) => {
                        let (rest, stop) = scan_flags(args, i + 2);
                        (seq![CliFlagView::Level(level)] + rest, stop)
                    },
                    None => (Seq::empty(), Some("unknown level "@ + args[i + 1])),
                }
            } else {
                (Seq::empty(), Some("pls input level"@))
            }
        } else {
            (Seq::empty(), Some("unknown flag: "@ + flag))
        }
    }
}

fn message_with(prefix: &str, tail: &str) -> (m: String)
    ensures
        m@ == prefix@ + tail@,
{
    let mut m = prefix.to_owned();
    m.append(tail);
    m
}

/// Reads the command line after the program's name.
///
/// `--help` in place of the file asks for help; a missing file or keyword is a usage error.
/// The options after them are read in order until the first one that is not understood, whose
/// usage error is kept in `stop`.
pub fn parse_cli_args(args: &Vec<String>) -> (r: Result<CliRequest, String>)
    ensures
        args@.len() == 0 ==> (r matches Err(m) && m@ == "pls input file path"@),
        args@.len() > 0 && args@[0]@ == "--help"@ ==> r matches Ok(CliRequest::Help),
        args@.len() == 1 && args@[0]@ != "--help"@ ==> (r matches Err(m) && m@
            == "pls input filter"@),
        args@.len() >= 2 && args@[0]@ != "--help"@ ==> (r matches Ok(CliRequest::Run(req)) && {
            &&& req.path@ == args@[0]@
            &&& req.keyword@ == args@[1]@
            &&& flag_views(req.flags@) == scan_flags(arg_views(args@), 2).0
            &&& match req.stop {
                Some(m) => scan_flags(arg_views(args@), 2).1 == Some(m@),
                None => scan_flags(arg_views(args@), 2).1 is None,
            }
        }),
{
    let ghost a = arg_views(args@);
    let n = args.len();
    if n == 0 {
        return Err("pls input file path".to_owned());
    }
    if str_eq(args[0].as_str(), "--help") {
        return Ok(CliRequest::Help);
    }
    if n == 1 {
        return Err("pls input filter".to_owned());
    }
    let path = args[0].clone();
    let keyword = args[1].clone();
    let mut flags: Vec<CliFlag> = Vec::new();
    let mut i: usize = 2;
    assert(flag_views(flags@) =~= Seq::<CliFlagView>::empty());
    while i < n
        invariant
            n == args@.len(),
            a == arg_views(args@),
            2 <= i <= n,
            args@[0]@ != "--help"@,
            path@ == args@[0]@,
            keyword@ == args@[1]@,
            scan_flags(a, 2) == (flag_views(flags@) + scan_flags(a, i as int).0, scan_flags(
                a,
                i as int,
            ).1),
        decreases n - i,
    {
        let flag = args[i].as_str();
        assert(a[i as int] == flag@);
        let ghost before = flag_views(flags@);
        if str_eq(flag, "--ignore-case") {
            flags.push(CliFlag::IgnoreCase);
            assert(flag_views(flags@) =~= before + seq![CliFlagView::IgnoreCase]);
            i = i + 1;
        } else if str_eq(flag, "--config") {
            if i + 1 < n {
                assert(a[i + 1] == args@[i + 1]@);
                let config_path = args[i + 1].clone();
                flags.push(CliFlag::Config(config_path));
                assert(flag_views(flags@) =~= before + seq![CliFlagView::Config(a[i + 1])]);
                i = i + 2;
            } else {
                let stop = Some("pls input config file path".to_owned());
                assert(flag_views(flags@) + Seq::<CliFlagView>::empty() =~= flag_views(flags@));
                return Ok(CliRequest::Run(RunRequest { path, keyword, flags, stop }));
            }
        } else if str_eq(flag, "--level") {
            if i + 1 < n {
                let word = args[i + 1].as_str();
                assert(a[i + 1] == word@);
                match parse_log_level(word) {
                    Some(level) => {
                        flags.push(CliFlag::Level(level));
                        assert(flag_views(flags@) =~= before + seq![CliFlagView::Level(level)]);
                        i = i + 2;
                    },
                    None => {
                        let stop = Some(message_with("unknown level ", word));
                        assert(flag_views(flags@) + Seq::<CliFlagView>::empty() =~= flag_views(
                            flags@,
                        ));
                        return Ok(CliRequest::Run(RunRequest { path, keyword, flags, stop }));
                    },
                }
            } else {
                let stop = Some("pls input level".to_owned());
                assert(flag_views(flags@) + Seq::<CliFlagView>::empty() =~= flag_views(flags@));
                return Ok(CliRequest::Run(RunRequest { path, keyword, flags, stop }));
            }
        } else {
            let stop = Some(message_with("unknown flag: ", flag));
            assert(flag_views(flags@) + Seq::<CliFlagView>::empty() =~= flag_views(flags@));
            return Ok(CliRequest::Run(RunRequest { path, keyword, flags, stop }));
        }
    }
    assert(flag_views(flags@) + Seq::<CliFlagView>::empty() =~= flag_views(flags@));
    Ok(CliRequest::Run(RunRequest { path, keyword, flags, stop: None }))
}

/// The configuration files named by the options, in the order given.
pub open spec fn config_paths_spec(flags: Seq<CliFlagView>) -> Seq<Seq<char>>
    decreases flags.len(),
{
    if flags.len() == 0 {
        Seq::empty()
    } else {
        let rest = config_paths_spec(flags.drop_last());
        match flags.last() {
            CliFlagView::Config(path) => rest.push(path),
            _ => rest,
        }
    }
}

/// `Some(true)` when `--ignore-case` was given.
pub open spec fn cli_ignore_case(flags: Seq<CliFlagView>) -> Option<bool> {
    if exists|i: int| 0 <= i < flags.len() && flags[i] is IgnoreCase {
        Some(true)
    } else {
        None
    }
}

/// The level of the last `--level` option.
pub open spec fn last_level(flags: Seq<CliFlagView>) -> Option<LogLevel>
    decreases flags.len(),
{
    if flags.len() == 0 {
        None
    } else {
        match flags.last() {
            CliFlagView::Level(level) => Some(level),
            _ => last_level(flags.drop_last()),
        }
    }
}

/// The setting that the last configuration file read gives.
pub open spec fn last_config_value(values: Seq<bool>) -> Option<bool> {
    if values.len() == 0 {
        None
    } else {
        Some(values.last())
    }
}

/// The configuration files that the options name, in order; each is to be read in turn.
pub fn config_paths(flags: &Vec<CliFlag>) -> (r: Vec<String>)
    ensures
        string_views(r@) == config_paths_spec(flag_views(flags@)),
{
    let mut r: Vec<String> = Vec::new();
    let n = flags.len();
    for i in 0..n
        invariant
            n == flags@.len(),
            string_views(r@) == config_paths_spec(flag_views(flags@.take(i as int))),
    {
        let ghost before = r@;
        assert(flag_views(flags@.take(i + 1)).drop_last() =~= flag_views(flags@.take(i as int)));
        assert(flag_views(flags@.take(i + 1)).last() == flags@[i as int]@);
        match &flags[i] {
            CliFlag::Config(path) => {
                r.push(path.clone());
                assert(string_views(r@) =~= string_views(before).push(path@));
            },
            _ => {},
        }
    }
    assert(flags@.take(n as int) =~= flags@);
    r
}

/// The settings that the options give: `--ignore-case` overrides the last configuration file
/// read, which overrides case-sensitive matching; the last `--level` chooses the level.
/// `config_values` are the settings read from the configuration files, in order.
pub fn resolve_settings(flags: &Vec<CliFlag>, config_values: &Vec<bool>) -> (s: Settings)
    ensures
        s.ignore_case == resolve_ignore_case_spec(
            false,
            last_config_value(config_values@),
            cli_ignore_case(flag_views(flags@)),
        ),
        s.level == last_level(flag_views(flags@)),
{
    let mut cli: Option<bool> = None;
    let mut level: Option<LogLevel> = None;
    let n = flags.len();
    for i in 0..n
        invariant
            n == flags@.len(),
            cli == cli_ignore_case(flag_views(flags@.take(i as int))),
            level == last_level(flag_views(flags@.take(i as int))),
    {
        let ghost prefix = flag_views(flags@.take(i as int));
        let ghost next = flag_views(flags@.take(i + 1));
        assert(next.drop_last() =~= prefix);
        assert(next.last() == flags@[i as int]@);
        assert(forall|j: int| 0 <= j < prefix.len() ==> next[j] == prefix[j]);
        match &flags[i] {
            CliFlag::IgnoreCase => {
                cli = Some(true);
                assert(next[i as int] is IgnoreCase);
            },
            CliFlag::Level(l) => {
                level = Some(*l);
            },
            _ => {},
        }
    }
    assert(flags@.take(n as int) =~= flags@);
    let file = if config_values.len() == 0 {
        None
    } else {
        Some(config_values[config_values.len() - 1])
    };
    Settings { ignore_case: resolve_ignore_case(false, file, cli), level }
}

/// Law: with `--ignore-case` among the options, matching ignores case whatever the
/// configuration files state and wherever the option stands among them.
pub proof fn law_ignore_case_option_overrides_files(flags: Seq<CliFlagView>, config_values: Seq<bool>)
    requires
        exists|i: int| 0 <= i < flags.len() && flags[i] is IgnoreCase,
    ensures
        resolve_ignore_case_spec(false, last_config_value(config_values), cli_ignore_case(flags)),
{
}

/// Law: without `--ignore-case`, the last configuration file read decides; with none read,
/// matching is case sensitive.
pub proof fn law_last_config_file_decides(flags: Seq<CliFlagView>, config_values: Seq<bool>)
    requires
        forall|i: int| 0 <= i < flags.len() ==> !(flags[i] is IgnoreCase),
    ensures
        resolve_ignore_case_spec(false, last_config_value(config_values), cli_ignore_case(flags))
            == (config_values.len() > 0 && config_values.last()),
{
}

/// The three option words are different words.
proof fn lemma_option_words_differ()
    ensures
        "--ignore-case"@ != "--config"@,
        "--ignore-case"@ != "--level"@,
        "--config"@ != "--level"@,
{
    reveal_strlit("--ignore-case");
    reveal_strlit("--config");
    reveal_strlit("--level");
    assert("--ignore-case"@.len() != "--config"@.len());
    assert("--ignore-case"@.len() != "--level"@.len());
    assert("--config"@.len() != "--level"@.len());
}

/// Law: past the last argument, nothing more is read and nothing stops the reading.
pub proof fn law_scan_at_end(args: Seq<Seq<char>>)
    ensures
        scan_flags(args, args.len() as int) == (Seq::<CliFlagView>::empty(), None::<Seq<char>>),
{
}

/// Law: `--ignore-case` reads as the option `IgnoreCase`, followed by what the arguments after
/// it read as.
pub proof fn law_scan_ignore_case(args: Seq<Seq<char>>, i: int)
    requires
        0 <= i < args.len(),
        args[i] == "--ignore-case"@,
    ensures
        scan_flags(args, i) == (
            seq![CliFlagView::IgnoreCase] + scan_flags(args, i + 1).0,
            scan_flags(args, i + 1).1,
        ),
{
}

/// Law: `--config PATH` reads as the option `Config(PATH)`, followed by what the arguments
/// after `PATH` read as.
pub proof fn law_scan_config(args: Seq<Seq<char>>, i: int)
    requires
        0 <= i,
        i + 1 < args.len(),
        args[i] == "--config"@,
    ensures
        scan_flags(args, i) == (
            seq![CliFlagView::Config(args[i + 1])] + scan_flags(args, i + 2).0,
            scan_flags(args, i + 2).1,
        ),
{
    lemma_option_words_differ();
}

/// Law: `--config` as the last argument stops the reading, asking for the file's path.
pub proof fn law_scan_config_without_path(args: Seq<Seq<char>>)
    requires
        args.len() > 0,
        args.last() == "--config"@,
    ensures
        scan_flags(args, args.len() - 1) == (
            Seq::<CliFlagView>::empty(),
            Some("pls input config file path"@),
        ),
{
    lemma_option_words_differ();
}

/// Law: `--level WORD`, `WORD` the word of a level, reads as the option `Level` of that level,
/// followed by what the arguments after `WORD` read as.
pub proof fn law_scan_level(args: Seq<Seq<char>>, i: int, level: LogLevel)
    requires
        0 <= i,
        i + 1 < args.len(),
        args[i] == "--level"@,
        args[i + 1] == level_word(level),
    ensures
        scan_flags(args, i) == (
            seq![CliFlagView::Level(level)] + scan_flags(args, i + 2).0,
            scan_flags(args, i + 2).1,
        ),
{
    lemma_option_words_differ();
    law_level_words(level);
}

/// Law: `--level WORD`, `WORD` naming no level, stops the reading with `unknown level WORD`.
pub proof fn law_scan_unknown_level(args: Seq<Seq<char>>, i: int)
    requires
        0 <= i,
        i + 1 < args.len(),
        args[i] == "--level"@,
        args[i + 1] != "INFO"@,
        args[i + 1] != "WARN"@,
        args[i + 1] != "ERROR"@,
    ensures
        scan_flags(args, i) == (Seq::<CliFlagView>::empty(), Some("unknown level "@ + args[i + 1])),
{
    lemma_option_words_differ();
}

/// Law: `--level` as the last argument stops the reading, asking for the level.
pub proof fn law_scan_level_without_value(args: Seq<Seq<char>>)
    requires
        args.len() > 0,
        args.last() == "--level"@,
    ensures
        scan_flags(args, args.len() - 1) == (Seq::<CliFlagView>::empty(), Some("pls input level"@)),
{
    lemma_option_words_differ();
}

/// Law: any other word stops the reading with `unknown flag: WORD`.
pub proof fn law_scan_unknown_flag(args: Seq<Seq<char>>, i: int)
    requires
        0 <= i < args.len(),
        args[i] != "--ignore-case"@,
        args[i] != "--config"@,
        args[i] != "--level"@,
    ensures
        scan_flags(args, i) == (Seq::<CliFlagView>::empty(), Some("unknown flag: "@ + args[i])),
{
}

/// Law: the options given one after the other name their configuration files one after the
/// other.
pub proof fn law_config_paths_concat(a: Seq<CliFlagView>, b: Seq<CliFlagView>)
    ensures
        config_paths_spec(a + b) == config_paths_spec(a) + config_paths_spec(b),
    decreases b.len(),
{
    if b.len() == 0 {
        assert(a + b =~= a);
        assert(config_paths_spec(a) + config_paths_spec(b) =~= config_paths_spec(a));
    } else {
        assert((a + b).drop_last() =~= a + b.drop_last());
        assert((a + b).last() == b.last());
        law_config_paths_concat(a, b.drop_last());
        match b.last() {
            CliFlagView::Config(path) => {
                assert(config_paths_spec(a) + config_paths_spec(b.drop_last()).push(path)
                    =~= (config_paths_spec(a) + config_paths_spec(b.drop_last())).push(path));
            },
            _ => {},
        }
    }
}

/// Law: a single option names one configuration file when it is `--config PATH`, namely
/// `PATH`, and none otherwise; no options name none.
pub proof fn law_config_paths_single(flag: CliFlagView)
    ensures
        config_paths_spec(Seq::<CliFlagView>::empty()) == Seq::<Seq<char>>::empty(),
        config_paths_spec(seq![flag]) == match flag {
            CliFlagView::Config(path) => seq![path],
            _ => Seq::<Seq<char>>::empty(),
        },
{
    let s = seq![flag];
    assert(s.drop_last() =~= Seq::<CliFlagView>::empty());
    assert(s.last() == flag);
    assert(Seq::<Seq<char>>::empty().push(flag->Config_0) =~= seq![flag->Config_0]);
}

/// Law: `config_paths_spec(seq![f] + rest)` is the path of `f` when `f` is `--config`, then the
/// paths of `rest`.
pub proof fn law_config_paths_prepend(flag: CliFlagView, rest: Seq<CliFlagView>)
    ensures
        config_paths_spec(seq![flag] + rest) == match flag {
            CliFlagView::Config(path) => seq![path] + config_paths_spec(rest),
            _ => config_paths_spec(rest),
        },
{
    law_config_paths_concat(seq![flag], rest);
    law_config_paths_single(flag);
    assert(Seq::<Seq<char>>::empty() + config_paths_spec(rest) =~= config_paths_spec(rest));
}

/// Law: the level chosen is that of the last `--level` option, whatever options follow it.
pub proof fn law_last_level_option_decides(flags: Seq<CliFlagView>, k: int, level: LogLevel)
    requires
        0 <= k < flags.len(),
        flags[k] == CliFlagView::Level(level),
        forall|j: int| k < j < flags.len() ==> !(#[trigger] flags[j] is Level),
    ensures
        last_level(flags) == Some(level),
    decreases flags.len(),
{
    if k < flags.len() - 1 {
        assert(!(flags[flags.len() - 1] is Level));
        let t = flags.drop_last();
        assert(t[k] == flags[k]);
        assert forall|j: int| k < j < t.len() implies !(#[trigger] t[j] is Level) by {
            assert(t[j] == flags[j]);
        }
        law_last_level_option_decides(t, k, level);
    }
}

/// Law: without `--level` options, no level is chosen.
pub proof fn law_no_level_option(flags: Seq<CliFlagView>)
    requires
        forall|j: int| 0 <= j < flags.len() ==> !(#[trigger] flags[j] is Level),
    ensures
        last_level(flags) is None,
    decreases flags.len(),
{
    if flags.len() > 0 {
        assert(!(flags[flags.len() - 1] is Level));
        let t = flags.drop_last();
        assert forall|j: int| 0 <= j < t.len() implies !(#[trigger] t[j] is Level) by {
            assert(t[j] == flags[j]);
        }
        law_no_level_option(t);
    }
}

/// Law: `--ignore-case` is in force exactly when it was given.
pub proof fn law_ignore_case_option_given(flags: Seq<CliFlagView>)
    ensures
        (exists|i: int| 0 <= i < flags.len() && flags[i] is IgnoreCase) ==> cli_ignore_case(flags)
            == Some(true),
        (forall|i: int| 0 <= i < flags.len() ==> !(flags[i] is IgnoreCase)) ==> cli_ignore_case(
            flags,
        ) is None,
{
}

} // verus!
