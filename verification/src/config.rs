//! The `ignore_case` setting: where it comes from and how a configuration file states it.

use vstd::prelude::*;
use crate::text::{
    all_white_space, is_white_space, law_trim_keeps_bare_text, lemma_trim_surrounded, str_eq, trim,
    trim_str,
};

verus! {

broadcast use vstd::string::group_string_axioms;

/// A configuration file's content that states no `ignore_case` setting.
#[derive(Debug)]
pub enum ConfigError {
    /// The content, white space trimmed, is neither `ignore_case=true` nor `ignore_case=false`.
    InvalidContent { content: String },
}

/// The setting in force: the command line's if it gives one, else the file's, else the default.
pub open spec fn resolve_ignore_case_spec(default: bool, file: Option<bool>, cli: Option<bool>) -> bool {
    match cli {
        Some(value) => value,
        None => match file {
            Some(value) => value,
            None => default,
        },
    }
}

/// Chooses the `ignore_case` setting: the command line overrides the file, which overrides
/// the default.
pub fn resolve_ignore_case(default: bool, file: Option<bool>, cli: Option<bool>) -> (r: bool)
    ensures
        r == resolve_ignore_case_spec(default, file, cli),
        cli is Some ==> r == cli->0,
        cli is None && file is Some ==> r == file->0,
        cli is None && file is None ==> r == default,
{
    match cli {
        Some(value) => value,
        None => match file {
            Some(value) => value,
            None => default,
        },
    }
}

/// What a configuration file's content states, white space around it ignored.
pub open spec fn parse_ignore_case_spec(content: Seq<char>) -> Option<bool> {
    let setting = trim(content);
    if setting == "ignore_case=true"@ {
        Some(true)
    } else if setting == "ignore_case=false"@ {
        Some(false)
    } else {
        None
    }
}

/// Reads the `ignore_case` setting from a configuration file's content. The content, white
/// space trimmed, must be `ignore_case=true` or `ignore_case=false`; anything else is refused
/// with the trimmed content.
pub fn parse_ignore_case(content: &str) -> (r: Result<bool, ConfigError>)
    ensures
        match r {
            Ok(value) => parse_ignore_case_spec(content@) == Some(value),
            Err(ConfigError::InvalidContent { content: c }) => {
                &&& parse_ignore_case_spec(content@) is None
                &&& c@ == trim(content@)
            },
        },
{
    let setting = trim_str(content);
    if str_eq(setting, "ignore_case=true") {
        Ok(true)
    } else if str_eq(setting, "ignore_case=false") {
        Ok(false)
    } else {
        Err(ConfigError::InvalidContent { content: setting.to_owned() })
    }
}

/// Law: white space around a configuration file's content changes nothing that it states.
pub proof fn law_surrounding_white_space_ignored(pre: Seq<char>, content: Seq<char>, post: Seq<char>)
    requires
        all_white_space(pre),
        all_white_space(post),
    ensures
        parse_ignore_case_spec(pre + content + post) == parse_ignore_case_spec(content),
{
    lemma_trim_surrounded(pre, content, post);
}

/// Law: `ignore_case=true` states `true` and `ignore_case=false` states `false`, whatever white
/// space surrounds them.
pub proof fn law_config_settings(pre: Seq<char>, post: Seq<char>)
    requires
        all_white_space(pre),
        all_white_space(post),
    ensures
        parse_ignore_case_spec(pre + "ignore_case=true"@ + post) == Some(true),
        parse_ignore_case_spec(pre + "ignore_case=false"@ + post) == Some(false),
{
    reveal_strlit("ignore_case=true");
    reveal_strlit("ignore_case=false");
    let t = "ignore_case=true"@;
    let f = "ignore_case=false"@;
    assert(!is_white_space(t[0]) && !is_white_space(t.last()));
    assert(!is_white_space(f[0]) && !is_white_space(f.last()));
    law_trim_keeps_bare_text(t);
    law_trim_keeps_bare_text(f);
    assert(t != f) by {
        assert(t.len() != f.len());
    }
    lemma_trim_surrounded(pre, t, post);
    lemma_trim_surrounded(pre, f, post);
}

/// Law: content that states a setting is, white space trimmed, `ignore_case=true` when it
/// states `true` and `ignore_case=false` when it states `false`.
pub proof fn law_config_states_only_two_settings(content: Seq<char>)
    ensures
        parse_ignore_case_spec(content) == Some(true) ==> trim(content) == "ignore_case=true"@,
        parse_ignore_case_spec(content) == Some(false) ==> trim(content) == "ignore_case=false"@,
        parse_ignore_case_spec(content) is None ==> trim(content) != "ignore_case=true"@ && trim(
            content,
        ) != "ignore_case=false"@,
{
}

} // verus!
