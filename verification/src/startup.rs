use vstd::prelude::*;
use crate::metadata::{flag, value_of, with_value, Settings};
use crate::text::{decimal, decimal_text, same_text, Text};

verus! {

/// The settings `entries` after the color options of the environment were
/// taken in, each later one over the earlier ones:
/// the log color as given; `CLICOLOR` of `0` turns color off; a `NO_COLOR`
/// that is not empty turns it off; a `CLICOLOR_FORCE` other than `0` turns it
/// on whatever stands before.
pub open spec fn env_opts(
    entries: Seq<(Text, Text)>,
    mt_logcolor: Option<Text>,
    clicolor: Option<Text>,
    no_color: Option<Text>,
    clicolor_force: Option<Text>,
) -> Seq<(Text, Text)> {
    let a = match mt_logcolor {
        Some(v) => with_value(entries, "color"@, v),
        None => entries,
    };
    let b = if clicolor == Some("0"@) {
        with_value(a, "color"@, "never"@)
    } else {
        a
    };
    let c = if no_color is Some && no_color->Some_0.len() > 0 {
        with_value(b, "color"@, "never"@)
    } else {
        b
    };
    if clicolor_force is Some && clicolor_force->Some_0 != "0"@ {
        with_value(c, "color"@, "always"@)
    } else {
        c
    }
}

/// Takes the color options of the environment into `args`. The caller reads
/// the four variables and hands over what it found.
pub fn get_env_opts(
    args: &mut Settings,
    mt_logcolor: Option<&str>,
    clicolor: Option<&str>,
    no_color: Option<&str>,
    clicolor_force: Option<&str>,
)
    ensures
        final(args)@ == env_opts(
            old(args)@,
            match mt_logcolor {
                Some(v) => Some(v@),
                None => None,
            },
            match clicolor {
                Some(v) => Some(v@),
                None => None,
            },
            match no_color {
                Some(v) => Some(v@),
                None => None,
            },
            match clicolor_force {
                Some(v) => Some(v@),
                None => None,
            },
        ),
{
    match mt_logcolor {
        Some(v) => {
            args.set("color", v);
        },
        None => {},
    }
    match clicolor {
        Some(v) => {
            if same_text(v, "0") {
                args.set("color", "never");
            }
        },
        None => {},
    }
    match no_color {
        Some(v) => {
            if !v.is_empty() {
                args.set("color", "never");
            }
        },
        None => {},
    }
    match clicolor_force {
        Some(v) => {
            if !same_text(v, "0") {
                args.set("color", "always");
            }
        },
        None => {},
    }
}

/// Whether log lines are colored.
#[derive(Clone, Copy, Debug, PartialEq, Eq, Structural)]
pub enum ColorMode {
    Auto,
    Always,
    Never,
}

/// The color mode that `text` names.
pub open spec fn color_mode_named(text: Text) -> Option<ColorMode> {
    if text == "auto"@ {
        Some(ColorMode::Auto)
    } else if text == "always"@ {
        Some(ColorMode::Always)
    } else if text == "never"@ {
        Some(ColorMode::Never)
    } else {
        None
    }
}

/// How the log is set up for a run.
#[derive(Clone, Copy, Debug, PartialEq, Eq, Structural)]
pub struct LogParams {
    /// Only errors go to the console.
    pub quiet: bool,
    /// The color mode asked for; none where the default stays.
    pub color_mode: Option<ColorMode>,
    /// Information goes to the console.
    pub info: bool,
    /// Verbose output goes to the console.
    pub verbose: bool,
    /// Trace output goes to the console, and sockets log what they do.
    pub trace: bool,
}

/// The color mode asked for is none that exists. By then it is settled
/// whether only errors go to the console, and that stands.
#[derive(Clone, Copy, Debug, PartialEq, Eq, Structural)]
pub struct InvalidColorMode {
    /// Only errors go to the console.
    pub quiet: bool,
}

/// The color option of `entries`; empty where there is none.
pub open spec fn color_option(entries: Seq<(Text, Text)>) -> Text {
    match value_of(entries, "color"@) {
        Some(v) => v,
        None => Seq::empty(),
    }
}

/// The log setup that the options `entries` ask for. The quiet flag is
/// taken before the color option is looked at, so that it is known also
/// where the color mode is none that exists.
pub open spec fn log_params(entries: Seq<(Text, Text)>) -> Result<LogParams, InvalidColorMode> {
    let color = color_option(entries);
    if color.len() > 0 && color_mode_named(color) is None {
        Err(InvalidColorMode { quiet: flag(entries, "quiet"@) })
    } else {
        Ok(
            LogParams {
                quiet: flag(entries, "quiet"@),
                color_mode: if color.len() > 0 {
                    color_mode_named(color)
                } else {
                    None
                },
                info: flag(entries, "info"@) || flag(entries, "verbose"@) || flag(
                    entries,
                    "trace"@,
                ) || flag(entries, "speedtests"@),
                verbose: flag(entries, "verbose"@) || flag(entries, "trace"@),
                trace: flag(entries, "trace"@),
            },
        )
    }
}

/// Works out from the command line's options how the log is set up. The
/// caller applies the setup to the logger: the quiet flag in either case,
/// the rest where the setup is whole.
pub fn setup_log_params(cmd_args: &Settings) -> (params: Result<LogParams, InvalidColorMode>)
    ensures
        params == log_params(cmd_args@),
{
    let quiet = cmd_args.get_flag("quiet");
    let mut color_mode: Option<ColorMode> = None;
    match cmd_args.get("color") {
        Some(color) => {
            let color = color.as_str();
            if !color.is_empty() {
                if same_text(color, "auto") {
                    color_mode = Some(ColorMode::Auto);
                } else if same_text(color, "always") {
                    color_mode = Some(ColorMode::Always);
                } else if same_text(color, "never") {
                    color_mode = Some(ColorMode::Never);
                } else {
                    return Err(InvalidColorMode { quiet });
                }
            }
        },
        None => {},
    }
    let verbose = cmd_args.get_flag("verbose");
    let trace = cmd_args.get_flag("trace");
    let info = cmd_args.get_flag("info") || verbose || trace || cmd_args.get_flag("speedtests");
    Ok(LogParams { quiet, color_mode, info, verbose: verbose || trace, trace })
}

/// The message that tells at startup which program runs: its name and
/// version, the highest serialization version it reads, how it was built.
pub open spec fn startup_text(
    project_name: Text,
    version_hash: Text,
    highest_read: u8,
    build_info: Text,
) -> Text {
    project_name + " "@ + version_hash + "\nwith SER_FMT_VER_HIGHEST_READ="@ + decimal_text(
        highest_read as nat,
    ) + ", "@ + build_info
}

/// Composes the startup message. The caller hands it to the log.
pub fn startup_message(
    project_name: &str,
    version_hash: &str,
    highest_read: u8,
    build_info: &str,
) -> (message: String)
    ensures
        message@ == startup_text(project_name@, version_hash@, highest_read, build_info@),
{
    let mut message = String::from_str(project_name);
    message.append(" ");
    message.append(version_hash);
    message.append("\nwith SER_FMT_VER_HIGHEST_READ=");
    let version = decimal(highest_read as u64);
    message.append(version.as_str());
    message.append(", ");
    message.append(build_info);
    message
}

} // verus!
