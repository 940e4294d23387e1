use vstd::prelude::*;
use crate::metadata::{get_or_empty, text_of, value_of, Settings};
use crate::text::{is_digit, leading_number, leading_value, Text};

verus! {

/// The file that the log goes to unless another is asked for.
pub const DEBUGFILE: &'static str = "debug.txt";

/// The name of the log level with the number `level`.
pub open spec fn level_name(level: nat) -> Text {
    if level == 0 {
        ""@
    } else if level == 1 {
        "error"@
    } else if level == 2 {
        "action"@
    } else if level == 3 {
        "info"@
    } else if level == 4 {
        "verbose"@
    } else {
        "trace"@
    }
}

/// The level that a number in the old format stands for: the number itself
/// up to five, the level of actions for every other number.
pub open spec fn legacy_level(text: Text) -> nat {
    let v = leading_value(text);
    if v < 6 {
        v
    } else {
        2
    }
}

/// The log level that the configured `text` names: where it begins with a
/// digit it is a number in the old format and stands for a level's name;
/// else it is taken as it is.
pub open spec fn resolved_log_level(text: Text) -> Text {
    if text.len() > 0 && is_digit(text[0]) {
        level_name(legacy_level(text))
    } else {
        text
    }
}

/// The name of the log level with the number `level`.
pub fn level_name_str(level: u64) -> (name: &'static str)
    ensures
        name@ == level_name(level as nat),
{
    if level == 0 {
        ""
    } else if level == 1 {
        "error"
    } else if level == 2 {
        "action"
    } else if level == 3 {
        "info"
    } else if level == 4 {
        "verbose"
    } else {
        "trace"
    }
}

/// Resolves the configured log level: a number in the old format becomes the
/// name of its level.
pub fn resolve_log_level(conf_loglev: &str) -> (level: String)
    ensures
        level@ == resolved_log_level(conf_loglev@),
{
    let n = conf_loglev.unicode_len();
    if n == 0 {
        return String::from_str(conf_loglev);
    }
    let first = conf_loglev.get_char(0);
    if !('0' <= first && first <= '9') {
        return String::from_str(conf_loglev);
    }
    let number = leading_number(conf_loglev, 6);
    let level = if number < 6 {
        number
    } else {
        2
    };
    String::from_str(level_name_str(level))
}

/// Where the log is written and what is written to it.
#[derive(Debug)]
pub struct LogFilePlan {
    pub filename: String,
    pub level: String,
}

/// The file that the log goes to: the one the command line names, else the
/// usual one below `path_user`.
pub open spec fn log_filename(cmd_args: Seq<(Text, Text)>, path_user: Text) -> Text {
    match value_of(cmd_args, "logfile"@) {
        Some(file) => file,
        None => path_user + "/"@ + DEBUGFILE@,
    }
}

/// Says where the log is written and at which level; nothing where the
/// file's name or the level is empty: then no log is written. The caller
/// opens the file.
pub fn init_log_streams(cmd_args: &Settings, g_settings: &Settings, path_user: &str) -> (plan:
    Option<LogFilePlan>)
    ensures
        match plan {
            Some(p) => {
                &&& p.filename@ == log_filename(cmd_args@, path_user@)
                &&& p.level@ == resolved_log_level(text_of(g_settings@, "debug_log_level"@))
                &&& p.filename@.len() > 0
                &&& p.level@.len() > 0
            },
            None => log_filename(cmd_args@, path_user@).len() == 0 || resolved_log_level(
                text_of(g_settings@, "debug_log_level"@),
            ).len() == 0,
        },
{
    let filename = match cmd_args.get("logfile") {
        Some(file) => file,
        None => {
            let mut file = String::from_str(path_user);
            file.append("/");
            file.append(DEBUGFILE);
            file
        },
    };
    let configured = get_or_empty(g_settings, "debug_log_level");
    let level = resolve_log_level(configured.as_str());
    if filename.as_str().is_empty() || level.as_str().is_empty() {
        None
    } else {
        Some(LogFilePlan { filename, level })
    }
}

/// The most bytes that the log file may hold, for a limit given in millions
/// of bytes. The product wraps round where it does not fit.
pub fn log_size_limit(megabytes: u64) -> (bytes: u64)
    ensures
        bytes == (megabytes * 1000000) % 0x1_0000_0000_0000_0000,
{
    megabytes.wrapping_mul(1000000)
}

} // verus!
