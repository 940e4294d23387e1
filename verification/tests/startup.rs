use map_migration::cmdline::{get_cmdline_opts, parse_command_line};
use map_migration::conffile::{
    is_space_char, parse_config_line, read_config_line, read_config_text, trim,
    write_config_text,
};
use map_migration::config::{
    auto_select_world, determine_subgame, game_configure_port, game_configure_subgame,
    game_configure_world, get_clean_world_path, get_game_from_cmdline, get_port,
    get_world_from_cmdline, get_world_from_config, read_config_file, GameParams, SubgameSpec,
    DEFAULT_SERVER_PORT,
};
use map_migration::debugger::{
    candidate_paths, debugger_name, findProgram, first_executable, getDebuggerArgs, join_path,
    push_arg, use_debugger, CheckedProbe, FileCheck,
};
use map_migration::logsetup::{
    init_log_streams, level_name_str, log_size_limit, resolve_log_level, DEBUGFILE,
};
use map_migration::metadata::{get_or_empty, Settings};
use map_migration::options::{
    print_allowed_options, print_help, print_version, set_allowed_options, write_spaces,
    OptionList, ValueType,
};
use map_migration::quicktune::{
    print_modified_quicktune_values, QuicktuneEntry, QuicktuneValue,
};
use map_migration::server::{
    dedicated_server_action, select_first_action, select_listing, FirstAction, Listing,
    ServerAction,
};
use map_migration::startup::{
    get_env_opts, setup_log_params, startup_message, ColorMode, InvalidColorMode, LogParams,
};
use map_migration::text::{decimal, digit_str, leading_number, split};
use map_migration::worlds::{print_worldspecs, WorldSpec};

fn settings(pairs: &[(&str, &str)]) -> Settings {
    let mut s = Settings::new();
    for (k, v) in pairs {
        s.set(k, v);
    }
    s
}

fn strings(items: &[&str]) -> Vec<String> {
    items.iter().map(|s| s.to_string()).collect()
}

fn params(dedicated: bool) -> GameParams {
    GameParams {
        socket_port: 0,
        world_path: String::new(),
        game_spec: SubgameSpec::none(),
        is_dedicated_server: dedicated,
    }
}

fn worlds() -> Vec<WorldSpec> {
    vec![
        WorldSpec { name: "alpha".to_string(), path: "/w/alpha".to_string() },
        WorldSpec { name: "beta".to_string(), path: "/w/beta".to_string() },
    ]
}

#[test]
fn env_opts_log_color_is_taken_as_given() {
    let mut args = Settings::new();
    get_env_opts(&mut args, Some("always"), None, None, None);
    assert_eq!(args.get("color"), Some("always".to_string()));
    let mut untouched = settings(&[("port", "1")]);
    get_env_opts(&mut untouched, None, None, None, None);
    assert_eq!(untouched.len(), 1);
    assert_eq!(untouched.get("color"), None);
}

#[test]
fn env_opts_later_variables_override_earlier_ones() {
    let mut args = Settings::new();
    get_env_opts(&mut args, Some("always"), Some("0"), None, None);
    assert_eq!(args.get("color"), Some("never".to_string()));

    let mut args = Settings::new();
    get_env_opts(&mut args, Some("always"), Some("1"), None, None);
    assert_eq!(args.get("color"), Some("always".to_string()));

    let mut args = Settings::new();
    get_env_opts(&mut args, None, None, Some("1"), None);
    assert_eq!(args.get("color"), Some("never".to_string()));

    let mut args = Settings::new();
    get_env_opts(&mut args, None, None, Some(""), None);
    assert_eq!(args.get("color"), None);

    let mut args = Settings::new();
    get_env_opts(&mut args, Some("auto"), Some("0"), Some("yes"), Some("1"));
    assert_eq!(args.get("color"), Some("always".to_string()));
    assert_eq!(args.len(), 1);

    let mut args = Settings::new();
    get_env_opts(&mut args, None, None, Some("x"), Some("0"));
    assert_eq!(args.get("color"), Some("never".to_string()));

    let mut args = Settings::new();
    get_env_opts(&mut args, None, None, None, Some(""));
    assert_eq!(args.get("color"), Some("always".to_string()));
}

#[test]
fn allowed_options_are_the_servers_twenty_four() {
    let mut list = OptionList::new();
    list.add("stale", ValueType::Flag, "gone after the call");
    set_allowed_options(&mut list);
    assert_eq!(list.len(), 24);
    assert_eq!(list.find("stale"), None);
    assert_eq!(list.find("help"), Some(0));
    assert_eq!(list.kind_at(0), ValueType::Flag);
    assert_eq!(list.options[0].spec.help, "Show allowed options");
    assert_eq!(list.find("migrate"), Some(18));
    assert_eq!(list.kind_at(18), ValueType::String);
    assert_eq!(list.find("recompress"), Some(23));
    assert_eq!(list.kind_at(23), ValueType::Flag);
    assert_eq!(list.options[23].spec.help, "Recompress the blocks of the given map database.");
    assert_eq!(
        list.options[9].spec.help,
        "Get list of worlds ('path' lists paths, 'name' lists names, 'both' lists both)"
    );
    assert_eq!(
        list.options[17].spec.help,
        "Set gameid (\"--gameid list\" prints available ones)"
    );
    for i in 0..list.len() {
        assert_eq!(list.find(&list.options[i].name), Some(i));
    }
    list.clear();
    assert_eq!(list.len(), 0);
}

#[test]
fn an_option_is_added_once_under_its_name() {
    let mut list = OptionList::new();
    assert!(list.add("world", ValueType::String, "first"));
    assert!(list.add("quiet", ValueType::Flag, "second"));
    assert!(!list.add("world", ValueType::Flag, "third"));
    assert_eq!(list.len(), 2);
    assert_eq!(list.find("world"), Some(0));
    assert_eq!(list.kind_at(0), ValueType::String);
    assert_eq!(list.options[0].spec.help, "first");
    assert_eq!(list.find("quiet"), Some(1));
}

#[test]
fn help_pads_titles_to_the_help_column() {
    let mut list = OptionList::new();
    list.add("help", ValueType::Flag, "Show allowed options");
    list.add("config", ValueType::String, "Load configuration from specified file");
    list.add("a-very-long-option-name-here", ValueType::String, "Too long to pad");
    list.add("bare", ValueType::Flag, "");
    let mut os = String::from("> ");
    print_allowed_options(&list, &mut os);
    let pad = " ".repeat(30);
    let expected = format!(
        "> {:<30}Show allowed options\n\n{:<30}Load configuration from specified file\n\n  --a-very-long-option-name-here <value>\n{}Too long to pad\n\n{:<30}\n",
        "  --help", "  --config <value>", pad, "  --bare"
    );
    assert_eq!(os, expected);

    let mut os = String::new();
    print_help(&list, &mut os);
    assert!(os.starts_with("Allowed options:\n  --help"));
    assert_eq!(os.len(), "Allowed options:\n".len() + expected.len() - 2);

    let mut exact = OptionList::new();
    exact.add("abcdefghijklmnopqrstuvwxyz", ValueType::Flag, "h");
    let mut os = String::new();
    print_allowed_options(&exact, &mut os);
    assert_eq!(os, format!("  --abcdefghijklmnopqrstuvwxyz\n{}h\n\n", pad));

    let mut os = String::from("x");
    write_spaces(&mut os, 3);
    assert_eq!(os, "x   ");
}

#[test]
fn version_text_names_program_and_build() {
    let mut os = String::new();
    print_version("Minetest", "5.6.0", "Linux", "BUILD_TYPE=Release", &mut os);
    assert_eq!(os, "Minetest 5.6.0 (Linux)\nBUILD_TYPE=Release\n");
}

#[test]
fn worldspecs_are_listed_by_name_path_or_both() {
    let w = worlds();
    let mut os = String::new();
    print_worldspecs(&w, &mut os, true, true);
    assert_eq!(os, "\talpha\t\t/w/alpha\n\tbeta\t\t/w/beta\n");
    let mut os = String::from("Available worlds:\n");
    print_worldspecs(&w, &mut os, true, false);
    assert_eq!(os, "Available worlds:\n\talpha\n\tbeta\n");
    let mut os = String::new();
    print_worldspecs(&w, &mut os, false, true);
    assert_eq!(os, "\t/w/alpha\n\t/w/beta\n");
    let mut os = String::new();
    print_worldspecs(&w, &mut os, false, false);
    assert_eq!(os, "");
    print_worldspecs(&Vec::new(), &mut os, true, true);
    assert_eq!(os, "");
}

fn tunable(name: &str, text: &str, modified: bool) -> QuicktuneEntry {
    QuicktuneEntry {
        name: name.to_string(),
        value: QuicktuneValue { text: text.to_string(), modified },
    }
}

#[test]
fn modified_quicktune_values_are_listed_under_one_heading() {
    let values = vec![
        tunable("fog", "1.5", false),
        tunable("bob", "0.25", true),
        tunable("sky", "7", false),
        tunable("sun", "on", true),
    ];
    let mut os = String::new();
    print_modified_quicktune_values(&values, &mut os);
    assert_eq!(os, "Modified quicktune values:\nbob = 0.25\nsun = on\n");

    let mut os = String::from("keep");
    print_modified_quicktune_values(&vec![tunable("fog", "1.5", false)], &mut os);
    assert_eq!(os, "keep");
    print_modified_quicktune_values(&Vec::new(), &mut os);
    assert_eq!(os, "keep");
}

#[test]
fn log_params_follow_the_flags() {
    assert_eq!(
        setup_log_params(&Settings::new()),
        Ok(LogParams { quiet: false, color_mode: None, info: false, verbose: false, trace: false })
    );
    assert_eq!(
        setup_log_params(&settings(&[("quiet", "true"), ("color", "never")])),
        Ok(LogParams {
            quiet: true,
            color_mode: Some(ColorMode::Never),
            info: false,
            verbose: false,
            trace: false
        })
    );
    assert_eq!(
        setup_log_params(&settings(&[("verbose", "true"), ("color", "auto")])),
        Ok(LogParams {
            quiet: false,
            color_mode: Some(ColorMode::Auto),
            info: true,
            verbose: true,
            trace: false
        })
    );
    assert_eq!(
        setup_log_params(&settings(&[("trace", "true"), ("color", "always")])),
        Ok(LogParams {
            quiet: false,
            color_mode: Some(ColorMode::Always),
            info: true,
            verbose: true,
            trace: true
        })
    );
    assert_eq!(
        setup_log_params(&settings(&[("speedtests", "true"), ("color", "")])),
        Ok(LogParams { quiet: false, color_mode: None, info: true, verbose: false, trace: false })
    );
    assert_eq!(
        setup_log_params(&settings(&[("info", "true")])).unwrap().info,
        true
    );
}

#[test]
fn log_params_refuse_an_unknown_color_mode() {
    assert_eq!(
        setup_log_params(&settings(&[("color", "sometimes")])),
        Err(InvalidColorMode { quiet: false })
    );
    assert_eq!(
        setup_log_params(&settings(&[("quiet", "true"), ("color", "Auto")])),
        Err(InvalidColorMode { quiet: true })
    );
    assert_eq!(
        setup_log_params(&settings(&[("color", "Auto"), ("quiet", "false"), ("trace", "true")])),
        Err(InvalidColorMode { quiet: false })
    );
}

#[test]
fn program_candidates_follow_the_search_path() {
    assert_eq!(
        candidate_paths("gdb", "/usr/bin:/opt/tools/:bin"),
        strings(&["/usr/bin/gdb", "/opt/tools/gdb", "bin/gdb"])
    );
    assert_eq!(candidate_paths("gdb", ""), Vec::<String>::new());
    assert_eq!(candidate_paths("gdb", "/bin"), strings(&["/bin/gdb"]));
    assert_eq!(candidate_paths("gdb", "/bin:"), strings(&["/bin/gdb", "gdb"]));
    assert_eq!(candidate_paths("gdb", ":/bin"), strings(&["gdb", "/bin/gdb"]));
    assert_eq!(candidate_paths("lldb", ":"), strings(&["lldb", "lldb"]));
    assert_eq!(candidate_paths("lldb", "/"), strings(&["/lldb"]));
    assert_eq!(join_path("a", "b"), "a/b");
    assert_eq!(join_path("a/", "b"), "a/b");
    assert_eq!(join_path("", "b"), "b");
}

/// Files that can be run, and the questions that were asked.
struct KnownFiles {
    executable: Vec<&'static str>,
    questions: Vec<String>,
}

impl FileCheck for KnownFiles {
    fn is_executable(&mut self, path: &str) -> bool {
        self.questions.push(path.to_string());
        self.executable.contains(&path)
    }
}

fn probe(executable: &[&'static str]) -> CheckedProbe<KnownFiles> {
    CheckedProbe::new(KnownFiles { executable: executable.to_vec(), questions: Vec::new() })
}

#[test]
fn leftmost_executable_place_of_the_path_wins() {
    let mut files = probe(&["/bin/gdb", "/opt/gdb"]);
    assert_eq!(findProgram("gdb", "/usr/bin:/bin/:/opt", &mut files), "/bin/gdb");
    assert_eq!(files.check.questions, strings(&["/usr/bin/gdb", "/bin/gdb"]));

    let mut files = probe(&["/usr/bin/lldb"]);
    assert_eq!(findProgram("lldb", "/usr/bin:/bin", &mut files), "/usr/bin/lldb");
    assert_eq!(files.check.questions, strings(&["/usr/bin/lldb"]));

    let mut files = probe(&["gdb"]);
    assert_eq!(findProgram("gdb", "/usr/bin:", &mut files), "gdb");
}

#[test]
fn no_program_where_no_place_of_the_path_has_one() {
    let mut files = probe(&["/sbin/gdb", "/usr/bin/lldb"]);
    assert_eq!(findProgram("gdb", "/usr/bin:/bin/:/opt", &mut files), "");
    assert_eq!(files.check.questions, strings(&["/usr/bin/gdb", "/bin/gdb", "/opt/gdb"]));

    let mut files = probe(&["gdb"]);
    assert_eq!(findProgram("gdb", "", &mut files), "");
    assert!(files.check.questions.is_empty());
}

#[test]
fn first_executable_candidate_is_picked() {
    let candidates = strings(&["/usr/bin/gdb", "/bin/gdb", "/opt/gdb"]);
    assert_eq!(first_executable(&candidates, &vec![false, true, true]), "/bin/gdb");
    assert_eq!(first_executable(&candidates, &vec![true, false, false]), "/usr/bin/gdb");
    assert_eq!(first_executable(&candidates, &vec![false, false, true]), "/opt/gdb");
    assert_eq!(first_executable(&candidates, &vec![false, false, false]), "");
    assert_eq!(first_executable(&Vec::new(), &Vec::new()), "");
}

#[test]
fn debugger_args_by_index() {
    let mut out = strings(&["gdb"]);
    getDebuggerArgs(&mut out, 0);
    assert_eq!(
        out,
        strings(&[
            "gdb", "-q", "--batch", "-iex", "set confirm off", "-ex", "run", "-ex", "bt",
            "--args"
        ])
    );
    let mut out = Vec::new();
    getDebuggerArgs(&mut out, 1);
    assert_eq!(out, strings(&["-Q", "-b", "-o", "run", "-k", "bt\nq", "--"]));
    let mut out = strings(&["x"]);
    getDebuggerArgs(&mut out, 2);
    getDebuggerArgs(&mut out, -1);
    assert_eq!(out, strings(&["x"]));
    push_arg(&mut out, "y");
    assert_eq!(out, strings(&["x", "y"]));
    assert_eq!(debugger_name(0), Some("gdb"));
    assert_eq!(debugger_name(1), Some("lldb"));
    assert_eq!(debugger_name(2), None);
}

#[test]
fn debugger_command_wraps_the_program_and_drops_the_option() {
    let args = strings(&["minetest", "--debugger", "--world", "/w", "--debugger", "--quiet"]);
    let found = strings(&["/usr/bin/gdb", "/usr/bin/lldb"]);
    assert_eq!(
        use_debugger(&args, Some("/opt/minetest"), &found),
        Some(strings(&[
            "/usr/bin/gdb",
            "-q",
            "--batch",
            "-iex",
            "set confirm off",
            "-ex",
            "run",
            "-ex",
            "bt",
            "--args",
            "/opt/minetest",
            "--world",
            "/w",
            "--quiet"
        ]))
    );
    let only_lldb = strings(&["", "/usr/bin/lldb"]);
    assert_eq!(
        use_debugger(&strings(&["minetest"]), Some("/opt/minetest"), &only_lldb),
        Some(strings(&[
            "/usr/bin/lldb",
            "-Q",
            "-b",
            "-o",
            "run",
            "-k",
            "bt\nq",
            "--",
            "/opt/minetest"
        ]))
    );
    assert_eq!(use_debugger(&args, None, &found), None);
    assert_eq!(use_debugger(&args, Some("/opt/minetest"), &strings(&["", ""])), None);
    assert_eq!(use_debugger(&args, Some("/opt/minetest"), &Vec::new()), None);
    assert_eq!(
        use_debugger(&Vec::new(), Some("p"), &strings(&["g"])).map(|c| c.len()),
        Some(11)
    );
}

#[test]
fn startup_message_names_version_and_highest_read_format() {
    assert_eq!(
        startup_message("Minetest", "5.6.0-dev", 29, "BUILD_TYPE=Debug"),
        "Minetest 5.6.0-dev\nwith SER_FMT_VER_HIGHEST_READ=29, BUILD_TYPE=Debug"
    );
    assert_eq!(startup_message("", "", 0, ""), " \nwith SER_FMT_VER_HIGHEST_READ=0, ");
    assert_eq!(
        startup_message("M", "v", 255, "b"),
        "M v\nwith SER_FMT_VER_HIGHEST_READ=255, b"
    );
}

#[test]
fn decimal_numerals() {
    assert_eq!(decimal(0), "0");
    assert_eq!(decimal(9), "9");
    assert_eq!(decimal(10), "10");
    assert_eq!(decimal(30000), "30000");
    assert_eq!(decimal(u64::MAX), "18446744073709551615");
    assert_eq!(digit_str(7), "7");
}

#[test]
fn server_action_takes_the_first_request() {
    assert_eq!(dedicated_server_action(&Settings::new()), ServerAction::Serve);
    assert_eq!(
        dedicated_server_action(&settings(&[("migrate", "dummy")])),
        ServerAction::MigrateMap
    );
    assert_eq!(
        dedicated_server_action(&settings(&[("recompress", "true"), ("migrate-auth", "x")])),
        ServerAction::MigrateAuth
    );
    assert_eq!(
        dedicated_server_action(&settings(&[("migrate-players", "x"), ("migrate", "y")])),
        ServerAction::MigrateMap
    );
    assert_eq!(
        dedicated_server_action(&settings(&[("migrate-mod-storage", "x")])),
        ServerAction::MigrateModStorage
    );
    assert_eq!(
        dedicated_server_action(&settings(&[("migrate-players", "x")])),
        ServerAction::MigratePlayers
    );
    assert_eq!(
        dedicated_server_action(&settings(&[("recompress", "true")])),
        ServerAction::Recompress
    );
    assert_eq!(
        dedicated_server_action(&settings(&[("recompress", "false")])),
        ServerAction::Serve
    );
}

#[test]
fn first_action_is_help_version_or_startup() {
    assert_eq!(select_first_action(true, &Settings::new()), FirstAction::Proceed);
    assert_eq!(select_first_action(false, &Settings::new()), FirstAction::PrintHelp(1));
    assert_eq!(
        select_first_action(true, &settings(&[("help", "true")])),
        FirstAction::PrintHelp(0)
    );
    assert_eq!(
        select_first_action(true, &settings(&[("nonopt0", "a"), ("nonopt1", "b")])),
        FirstAction::PrintHelp(0)
    );
    assert_eq!(
        select_first_action(true, &settings(&[("version", "true")])),
        FirstAction::PrintVersion
    );
    assert_eq!(
        select_first_action(false, &settings(&[("version", "true")])),
        FirstAction::PrintHelp(1)
    );
}

#[test]
fn listings_by_gameid_and_worldlist() {
    assert_eq!(select_listing(&Settings::new()), Listing::Nothing);
    assert_eq!(select_listing(&settings(&[("gameid", "list")])), Listing::GameIds);
    assert_eq!(select_listing(&settings(&[("gameid", "minetest")])), Listing::Nothing);
    assert_eq!(
        select_listing(&settings(&[("worldlist", "name")])),
        Listing::Worlds { print_name: true, print_path: false }
    );
    assert_eq!(
        select_listing(&settings(&[("worldlist", "path")])),
        Listing::Worlds { print_name: false, print_path: true }
    );
    assert_eq!(
        select_listing(&settings(&[("worldlist", "both")])),
        Listing::Worlds { print_name: true, print_path: true }
    );
    assert_eq!(select_listing(&settings(&[("worldlist", "all")])), Listing::InvalidWorldlist);
    assert_eq!(
        select_listing(&settings(&[("worldlist", "both"), ("gameid", "list")])),
        Listing::GameIds
    );
}

#[test]
fn command_line_is_read_by_the_allowed_options() {
    let mut list = OptionList::new();
    let mut cmd_args = Settings::new();
    let args = strings(&[
        "minetestserver",
        "--world",
        "/w/alpha",
        "--quiet",
        "first",
        "--migrate",
        "dummy",
        "second",
    ]);
    assert!(get_cmdline_opts(&args, &mut cmd_args, &mut list));
    assert_eq!(list.len(), 24);
    assert_eq!(cmd_args.len(), 5);
    assert_eq!(cmd_args.get("world"), Some("/w/alpha".to_string()));
    assert_eq!(cmd_args.get("quiet"), Some("true".to_string()));
    assert_eq!(cmd_args.get("nonopt0"), Some("first".to_string()));
    assert_eq!(cmd_args.get("migrate"), Some("dummy".to_string()));
    assert_eq!(cmd_args.get("nonopt1"), Some("second".to_string()));
    assert_eq!(cmd_args.get("minetestserver"), None);
}

#[test]
fn command_line_is_refused_at_the_first_bad_argument() {
    let mut list = OptionList::new();
    set_allowed_options(&mut list);

    let mut cmd_args = Settings::new();
    assert!(!parse_command_line(&mut cmd_args, &strings(&["p", "--quiet", "--nonsense", "--info"]), &list));
    assert_eq!(cmd_args.len(), 1);
    assert!(cmd_args.get_flag("quiet"));

    let mut cmd_args = Settings::new();
    assert!(!parse_command_line(&mut cmd_args, &strings(&["p", "-q"]), &list));
    assert_eq!(cmd_args.len(), 0);

    let mut cmd_args = Settings::new();
    assert!(!parse_command_line(&mut cmd_args, &strings(&["p", "--world"]), &list));
    assert_eq!(cmd_args.len(), 0);

    let mut cmd_args = Settings::new();
    assert!(!parse_command_line(&mut cmd_args, &strings(&["p", "-"]), &list));

    let mut cmd_args = Settings::new();
    assert!(!parse_command_line(&mut cmd_args, &strings(&["p", "--"]), &list));

    let mut cmd_args = Settings::new();
    assert!(parse_command_line(&mut cmd_args, &strings(&["p", "", "--world", "--quiet"]), &list));
    assert_eq!(cmd_args.get("nonopt0"), Some(String::new()));
    assert_eq!(cmd_args.get("world"), Some("--quiet".to_string()));
    assert_eq!(cmd_args.get("quiet"), None);

    let mut cmd_args = Settings::new();
    assert!(parse_command_line(&mut cmd_args, &Vec::new(), &list));
    assert!(parse_command_line(&mut cmd_args, &strings(&["--nonsense"]), &list));
    assert_eq!(cmd_args.len(), 0);
}

#[test]
fn port_comes_from_command_line_configuration_or_default() {
    let conf = settings(&[("port", "30001"), ("remote_port", "30002")]);
    let mut p = params(true);
    game_configure_port(&mut p, &settings(&[("port", "4000")]), &conf);
    assert_eq!(p.socket_port, 4000);
    game_configure_port(&mut p, &Settings::new(), &conf);
    assert_eq!(p.socket_port, 30001);
    game_configure_port(&mut p, &Settings::new(), &settings(&[("port", "0")]));
    assert_eq!(p.socket_port, 30000);
    game_configure_port(&mut p, &settings(&[("port", "0")]), &conf);
    assert_eq!(p.socket_port, DEFAULT_SERVER_PORT);
    game_configure_port(&mut p, &settings(&[("port", "none")]), &conf);
    assert_eq!(p.socket_port, DEFAULT_SERVER_PORT);
    game_configure_port(&mut p, &Settings::new(), &Settings::new());
    assert_eq!(p.socket_port, DEFAULT_SERVER_PORT);
    let mut client = params(false);
    game_configure_port(&mut client, &Settings::new(), &conf);
    assert_eq!(client.socket_port, 30002);
    assert!(!client.is_dedicated_server);
}

#[test]
fn port_is_the_number_the_text_begins_with() {
    let s = settings(&[
        ("a", "80"),
        ("b", " 8080 "),
        ("c", "65535"),
        ("d", "65536"),
        ("e", "99999999999999999999999"),
        ("f", "12ab"),
        ("g", "-5"),
        ("h", ""),
        ("i", "007"),
    ]);
    assert_eq!(get_port(&s, "a"), 80);
    assert_eq!(get_port(&s, "b"), 8080);
    assert_eq!(get_port(&s, "c"), 65535);
    assert_eq!(get_port(&s, "d"), 65535);
    assert_eq!(get_port(&s, "e"), 65535);
    assert_eq!(get_port(&s, "f"), 12);
    assert_eq!(get_port(&s, "g"), 0);
    assert_eq!(get_port(&s, "h"), 0);
    assert_eq!(get_port(&s, "i"), 7);
    assert_eq!(get_port(&s, "missing"), 0);
    assert_eq!(leading_number("41", 40), 40);
    assert_eq!(leading_number("39x", 40), 39);
    assert_eq!(leading_number("x39", 40), 0);
    assert_eq!(leading_number("5", 0), 0);
    assert_eq!(leading_number("4294967296", 0xffff_ffff), 0xffff_ffff);
    assert_eq!(leading_number("4294967294", 0xffff_ffff), 4294967294);
}

#[test]
fn clean_world_path_is_the_path_as_given() {
    assert_eq!(get_clean_world_path("/w/alpha"), ("/w/alpha".to_string(), false));
    assert_eq!(get_clean_world_path("/w/alpha/world.mt"), ("/w/alpha/world.mt".to_string(), true));
    assert_eq!(get_clean_world_path("world.mt"), ("world.mt".to_string(), false));
    assert_eq!(get_clean_world_path("xworld.mt"), ("xworld.mt".to_string(), true));
    assert_eq!(get_clean_world_path(""), (String::new(), false));
}

#[test]
fn world_from_command_line_by_name_or_path() {
    let w = worlds();
    let mut p = params(true);
    assert!(get_world_from_cmdline(&mut p, &settings(&[("worldname", "beta")]), &w));
    assert_eq!(p.world_path, "/w/beta");

    assert!(!get_world_from_cmdline(&mut p, &settings(&[("worldname", "gamma")]), &w));
    assert_eq!(p.world_path, "/w/beta");

    assert!(get_world_from_cmdline(
        &mut p,
        &settings(&[("map-dir", "/m"), ("world", "/x"), ("nonopt0", "/n")]),
        &w
    ));
    assert_eq!(p.world_path, "/x");
    assert!(get_world_from_cmdline(&mut p, &settings(&[("map-dir", "/m"), ("nonopt0", "/n")]), &w));
    assert_eq!(p.world_path, "/m");
    assert!(get_world_from_cmdline(&mut p, &settings(&[("nonopt0", "/n")]), &w));
    assert_eq!(p.world_path, "/n");
    assert!(!get_world_from_cmdline(&mut p, &settings(&[("world", ""), ("nonopt0", "/n")]), &w));
    assert_eq!(p.world_path, "");
    p.world_path = "old".to_string();
    assert!(!get_world_from_cmdline(&mut p, &Settings::new(), &w));
    assert_eq!(p.world_path, "");
    assert!(get_world_from_cmdline(&mut p, &settings(&[("worldname", ""), ("world", "/x")]), &w));
    assert_eq!(p.world_path, "/x");
    assert_eq!(get_or_empty(&settings(&[("a", "b")]), "a"), "b");
    assert_eq!(get_or_empty(&Settings::new(), "a"), "");
}

#[test]
fn world_from_configuration() {
    let mut p = params(true);
    assert!(get_world_from_config(&mut p, &settings(&[("map-dir", "/m")])));
    assert_eq!(p.world_path, "/m");
    assert!(!get_world_from_config(&mut p, &Settings::new()));
    assert_eq!(p.world_path, "");
}

#[test]
fn world_is_picked_when_none_was_asked_for() {
    let mut p = params(true);
    assert!(auto_select_world(&mut p, &worlds()[..1].iter().map(|w| WorldSpec {
        name: w.name.clone(),
        path: w.path.clone()
    }).collect(), "/home/u/.minetest"));
    assert_eq!(p.world_path, "/w/alpha");

    p.world_path = "kept".to_string();
    assert!(!auto_select_world(&mut p, &worlds(), "/home/u/.minetest"));
    assert_eq!(p.world_path, "kept");

    assert!(auto_select_world(&mut p, &Vec::new(), "/home/u/.minetest"));
    assert_eq!(p.world_path, "/home/u/.minetest/worlds/world");

    let mut client = params(false);
    assert!(auto_select_world(&mut client, &worlds(), "/u"));
    assert_eq!(client.world_path, "/u/worlds/world");
}

fn game(id: &str, path: &str) -> SubgameSpec {
    SubgameSpec { id: id.to_string(), gamemods_path: path.to_string() }
}

#[test]
fn game_from_command_line_must_be_found() {
    let mut p = params(true);
    assert!(!get_game_from_cmdline(&mut p, None));
    assert!(!get_game_from_cmdline(&mut p, Some(SubgameSpec::none())));
    assert!(!get_game_from_cmdline(&mut p, Some(game("minetest", ""))));
    assert!(!p.game_spec.is_valid());
    assert!(get_game_from_cmdline(&mut p, Some(game("minetest", "/g/mods"))));
    assert_eq!(p.game_spec.id, "minetest");
    assert!(p.game_spec.is_valid());
    assert_eq!(p.game_spec.duplicate().gamemods_path, "/g/mods");
}

#[test]
fn subgame_is_the_commanded_one_or_that_of_the_world() {
    let mut p = params(true);
    p.world_path = "/w/alpha".to_string();
    assert!(!determine_subgame(&mut p, false, game("world_game", "/g")));
    assert!(!p.game_spec.is_valid());
    assert!(!determine_subgame(&mut p, true, SubgameSpec::none()));
    assert!(determine_subgame(&mut p, true, game("world_game", "/g")));
    assert_eq!(p.game_spec.id, "world_game");

    p.game_spec = game("commanded", "/c");
    assert!(determine_subgame(&mut p, true, game("world_game", "/g")));
    assert_eq!(p.game_spec.id, "commanded");
    assert!(determine_subgame(&mut p, false, SubgameSpec::none()));
    assert_eq!(p.game_spec.id, "commanded");
}

#[test]
fn configuration_is_searched_below_the_user_directory() {
    let search = read_config_file(&Settings::new(), "/u");
    assert!(!search.required);
    assert_eq!(
        search.candidates,
        strings(&["/u/minetest.conf", "/u/../minetest.conf", "/u/../../minetest.conf"])
    );
    let search = read_config_file(&settings(&[("config", "/etc/mt.conf")]), "/u");
    assert!(search.required);
    assert_eq!(search.candidates, strings(&["/etc/mt.conf"]));
}

#[test]
fn log_level_in_the_old_format_becomes_a_name() {
    assert_eq!(resolve_log_level("0"), "");
    assert_eq!(resolve_log_level("1"), "error");
    assert_eq!(resolve_log_level("2"), "action");
    assert_eq!(resolve_log_level("3"), "info");
    assert_eq!(resolve_log_level("4"), "verbose");
    assert_eq!(resolve_log_level("5"), "trace");
    assert_eq!(resolve_log_level("6"), "action");
    assert_eq!(resolve_log_level("05"), "trace");
    assert_eq!(resolve_log_level("10"), "action");
    assert_eq!(resolve_log_level("99999999999999999999999999"), "action");
    assert_eq!(resolve_log_level("3x"), "info");
    assert_eq!(resolve_log_level("4 "), "verbose");
    assert_eq!(resolve_log_level("verbose"), "verbose");
    assert_eq!(resolve_log_level("x3"), "x3");
    assert_eq!(resolve_log_level(""), "");
    assert_eq!(level_name_str(2), "action");
    assert_eq!(level_name_str(9), "trace");
}

#[test]
fn log_file_plan() {
    let conf = settings(&[("debug_log_level", "3")]);
    let plan = init_log_streams(&Settings::new(), &conf, "/u").unwrap();
    assert_eq!(plan.filename, "/u/debug.txt");
    assert_eq!(plan.level, "info");
    assert_eq!(DEBUGFILE, "debug.txt");

    let plan = init_log_streams(&settings(&[("logfile", "/tmp/log")]), &conf, "/u").unwrap();
    assert_eq!(plan.filename, "/tmp/log");

    assert!(init_log_streams(&settings(&[("logfile", "")]), &conf, "/u").is_none());
    assert!(init_log_streams(&Settings::new(), &Settings::new(), "/u").is_none());
    assert!(init_log_streams(&Settings::new(), &settings(&[("debug_log_level", "0")]), "/u").is_none());
    let named = init_log_streams(&Settings::new(), &settings(&[("debug_log_level", "warning")]), "/u");
    assert_eq!(named.unwrap().level, "warning");

    assert_eq!(log_size_limit(50), 50_000_000);
    assert_eq!(log_size_limit(u64::MAX), u64::MAX.wrapping_mul(1_000_000));
}

#[test]
fn configuration_lines_hold_name_and_value() {
    let pair = |a: &str, b: &str| Some((a.to_string(), b.to_string()));
    assert_eq!(parse_config_line("backend = sqlite3"), pair("backend", "sqlite3"));
    assert_eq!(parse_config_line("  gameid=minetest \r"), pair("gameid", "minetest"));
    assert_eq!(parse_config_line("a = b = c"), pair("a", "b = c"));
    assert_eq!(parse_config_line("name ="), pair("name", ""));
    assert_eq!(parse_config_line("\tseed\t=\t 12 34 "), pair("seed", "12 34"));
    assert_eq!(parse_config_line(""), None);
    assert_eq!(parse_config_line("   "), None);
    assert_eq!(parse_config_line("# backend = sqlite3"), None);
    assert_eq!(parse_config_line("  #x=y"), None);
    assert_eq!(parse_config_line("no equals sign"), None);
    assert_eq!(parse_config_line(" = value"), None);
    assert_eq!(parse_config_line("="), None);
    assert_eq!(trim("  a b \t\n"), "a b");
    assert_eq!(trim(""), "");
    assert_eq!(trim(" \r\n"), "");
    assert_eq!(trim("x"), "x");
    assert!(is_space_char(' ') && is_space_char('\t') && is_space_char('\n'));
    assert!(!is_space_char('x'));
}

#[test]
fn configuration_text_is_read_and_written_line_by_line() {
    let mut world_mt = Settings::new();
    for line in ["# world", "gameid = minetest", "", "backend = sqlite3", "junk", "gameid = other"] {
        let taken = read_config_line(&mut world_mt, line);
        assert_eq!(taken, line.contains('=') && !line.starts_with('#'));
    }
    assert_eq!(world_mt.len(), 2);
    assert_eq!(write_config_text(&world_mt), "gameid = other\nbackend = sqlite3\n");
    world_mt.set_backend("dummy");
    assert_eq!(write_config_text(&world_mt), "gameid = other\nbackend = dummy\n");
    assert_eq!(write_config_text(&Settings::new()), "");
}

#[test]
fn configuration_text_is_read_as_a_whole() {
    let mut world_mt = Settings::new();
    world_mt.set("backend", "files");
    read_config_text(
        &mut world_mt,
        "gameid = minetest\r\n# comment\nbackend = sqlite3\n\nplayer_backend = sqlite3",
    );
    assert_eq!(
        write_config_text(&world_mt),
        "backend = sqlite3\ngameid = minetest\nplayer_backend = sqlite3\n"
    );
    let mut untouched = Settings::new();
    read_config_text(&mut untouched, "");
    assert_eq!(untouched.len(), 0);
    let mut again = Settings::new();
    read_config_text(&mut again, &write_config_text(&world_mt));
    assert_eq!(write_config_text(&again), write_config_text(&world_mt));
}

#[test]
fn text_is_split_at_every_delimiter() {
    assert_eq!(split("a:b::c", ':'), strings(&["a", "b", "", "c"]));
    assert_eq!(split("", ':'), strings(&[""]));
    assert_eq!(split(":", ':'), strings(&["", ""]));
    assert_eq!(split("abc", ':'), strings(&["abc"]));
    assert_eq!(split("one\ntwo\n", '\n'), strings(&["one", "two", ""]));
}

#[test]
fn world_is_settled_by_command_line_configuration_or_choice() {
    let w = worlds();
    let conf = settings(&[("map-dir", "/m")]);
    let mut p = params(true);
    assert!(game_configure_world(&mut p, &settings(&[("world", "/x")]), &conf, &w, "/u"));
    assert_eq!(p.world_path, "/x");
    assert!(game_configure_world(&mut p, &settings(&[("worldname", "nope")]), &conf, &w, "/u"));
    assert_eq!(p.world_path, "/m");
    assert!(game_configure_world(&mut p, &Settings::new(), &conf, &w, "/u"));
    assert_eq!(p.world_path, "/m");
    assert!(!game_configure_world(&mut p, &Settings::new(), &Settings::new(), &w, "/u"));
    assert_eq!(p.world_path, "");
    assert!(game_configure_world(&mut p, &Settings::new(), &Settings::new(), &Vec::new(), "/u"));
    assert_eq!(p.world_path, "/u/worlds/world");
    let mut client = params(false);
    assert!(game_configure_world(&mut client, &Settings::new(), &Settings::new(), &w, "/u"));
    assert_eq!(client.world_path, "/u/worlds/world");
}

#[test]
fn game_is_settled_by_command_line_or_world() {
    let mut p = params(true);
    assert!(game_configure_subgame(&mut p, Some(game("asked", "/a")), true, game("world", "/g")));
    assert_eq!(p.game_spec.id, "asked");
    assert_eq!(p.world_path, "");
    let mut p = params(true);
    p.world_path = "/w/alpha".to_string();
    assert!(game_configure_subgame(&mut p, Some(SubgameSpec::none()), true, game("world", "/g")));
    assert_eq!(p.game_spec.id, "world");
    let mut p = params(true);
    p.world_path = "/w/alpha".to_string();
    assert!(!game_configure_subgame(&mut p, None, false, game("world", "/g")));
    assert_eq!(p.game_spec.id, "");
}
