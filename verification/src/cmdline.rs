use vstd::prelude::*;
use crate::metadata::{with_value, Settings};
use crate::options::{
    allowed_option_table, option_index, set_allowed_options, OptionList, ValueType,
};
use crate::text::{decimal, decimal_text, texts, Text};

verus! {

/// Whether `arg` begins with the two dashes of an option.
pub open spec fn is_option(arg: Text) -> bool {
    arg.len() >= 2 && arg[0] == '-' && arg[1] == '-'
}

/// The key under which the nameless argument with the number `index` is kept.
pub open spec fn nonopt_key(index: nat) -> Text {
    "nonopt"@ + decimal_text(index)
}

/// What reading a command line gives: the settings as far as they were
/// taken in, and whether the whole line was accepted.
pub struct Parsed {
    pub entries: Seq<(Text, Text)>,
    pub accepted: bool,
}

/// Reads the arguments from index `i` on into `entries`, `nonopt` nameless
/// arguments having been read before.
///
/// An argument without leading dash is nameless and kept under a numbered
/// key. One with a single dash is refused. `--name` must name one of
/// `options`: a flag is set to `true`, any other option takes the next
/// argument as its value and is refused where there is none. Reading stops at
/// the first argument that is refused.
pub open spec fn parse_from(
    entries: Seq<(Text, Text)>,
    args: Seq<Text>,
    i: nat,
    nonopt: nat,
    options: Seq<(Text, ValueType, Text)>,
) -> Parsed
    decreases args.len() - i,
{
    if i >= args.len() {
        Parsed { entries, accepted: true }
    } else {
        let arg = args[i as int];
        if !is_option(arg) {
            if arg.len() > 0 && arg[0] == '-' {
                Parsed { entries, accepted: false }
            } else {
                parse_from(
                    with_value(entries, nonopt_key(nonopt), arg),
                    args,
                    i + 1,
                    nonopt + 1,
                    options,
                )
            }
        } else {
            let name = arg.skip(2);
            let k = option_index(options, name);
            if k >= options.len() {
                Parsed { entries, accepted: false }
            } else if options[k].1 == ValueType::Flag {
                parse_from(with_value(entries, name, "true"@), args, i + 1, nonopt, options)
            } else if i + 1 >= args.len() {
                Parsed { entries, accepted: false }
            } else {
                parse_from(
                    with_value(entries, name, args[(i + 1) as int]),
                    args,
                    i + 2,
                    nonopt,
                    options,
                )
            }
        }
    }
}

/// Takes the arguments of a command line into `settings`; the first argument
/// is the program's name and is passed over. Tells whether the line was
/// accepted. What was read before a refused argument stays in `settings`.
pub fn parse_command_line(settings: &mut Settings, args: &Vec<String>, allowed_options: &OptionList)
    -> (accepted: bool)
    ensures
        accepted == parse_from(old(settings)@, texts(args@), 1, 0, allowed_options@).accepted,
        final(settings)@ == parse_from(
            old(settings)@,
            texts(args@),
            1,
            0,
            allowed_options@,
        ).entries,
{
    let ghost goal = parse_from(old(settings)@, texts(args@), 1, 0, allowed_options@);
    let mut i: usize = 1;
    let mut nonopt: usize = 0;
    while i < args.len()
        invariant
            1 <= i,
            nonopt < i,
            parse_from(settings@, texts(args@), i as nat, nonopt as nat, allowed_options@) == goal,
            goal == parse_from(old(settings)@, texts(args@), 1, 0, allowed_options@),
        decreases args.len() - i,
    {
        let arg = args[i].as_str();
        assert(texts(args@)[i as int] == arg@);
        let n = arg.unicode_len();
        let dashed = n > 0 && arg.get_char(0) == '-';
        if !(n >= 2 && dashed && arg.get_char(1) == '-') {
            if dashed {
                return false;
            }
            let mut key = String::from_str("nonopt");
            let number = decimal(nonopt as u64);
            key.append(number.as_str());
            settings.set(key.as_str(), arg);
            nonopt = nonopt + 1;
            i = i + 1;
        } else {
            let name = arg.substring_char(2, n);
            assert(name@ =~= arg@.skip(2));
            match allowed_options.find(name) {
                None => {
                    return false;
                },
                Some(k) => {
                    match allowed_options.kind_at(k) {
                        ValueType::Flag => {
                            settings.set(name, "true");
                            i = i + 1;
                        },
                        ValueType::String => {
                            if i + 1 >= args.len() {
                                return false;
                            }
                            assert(texts(args@)[i + 1] == args@[i + 1]@);
                            settings.set(name, args[i + 1].as_str());
                            i = i + 2;
                        },
                    }
                },
            }
        }
    }
    true
}

/// Sets `allowed_options` to the options of the server's command line and
/// reads `args` by them into `cmd_args`.
pub fn get_cmdline_opts(
    args: &Vec<String>,
    cmd_args: &mut Settings,
    allowed_options: &mut OptionList,
) -> (accepted: bool)
    ensures
        final(allowed_options).wf(),
        final(allowed_options)@ == allowed_option_table(),
        accepted == parse_from(
            old(cmd_args)@,
            texts(args@),
            1,
            0,
            allowed_option_table(),
        ).accepted,
        final(cmd_args)@ == parse_from(
            old(cmd_args)@,
            texts(args@),
            1,
            0,
            allowed_option_table(),
        ).entries,
{
    set_allowed_options(allowed_options);
    parse_command_line(cmd_args, args, allowed_options)
}

} // verus!
