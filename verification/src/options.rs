use vstd::prelude::*;
use crate::search::{first_match, lemma_first_match, lemma_first_match_is};
use crate::text::{same_text, Text};

verus! {

/// Whether an option stands alone or takes a value.
#[derive(Clone, Copy, Debug, PartialEq, Eq, Structural)]
pub enum ValueType {
    Flag,
    String,
}

/// What is known of one option: its kind and the help shown for it.
#[derive(Debug)]
pub struct ValueSpec {
    pub kind: ValueType,
    pub help: String,
}

/// One option that the command line accepts.
#[derive(Debug)]
pub struct AllowedOption {
    pub name: String,
    pub spec: ValueSpec,
}

impl View for AllowedOption {
    type V = (Text, ValueType, Text);

    open spec fn view(&self) -> (Text, ValueType, Text) {
        (self.name@, self.spec.kind, self.spec.help@)
    }
}

/// The options that the command line accepts, each under its name, in the
/// order in which they were added, which is that in which help lists them.
/// No name stands twice.
#[derive(Debug)]
pub struct OptionList {
    pub options: Vec<AllowedOption>,
}

impl View for OptionList {
    type V = Seq<(Text, ValueType, Text)>;

    open spec fn view(&self) -> Seq<(Text, ValueType, Text)> {
        self.options@.map_values(|o: AllowedOption| o@)
    }
}

/// Whether an option is named `name`.
pub open spec fn named(name: Text) -> spec_fn((Text, ValueType, Text)) -> bool {
    |o: (Text, ValueType, Text)| o.0 == name
}

/// Where the first option named `name` stands in `options`; their number
/// where none is.
pub open spec fn option_index(options: Seq<(Text, ValueType, Text)>, name: Text) -> int {
    first_match(options, named(name))
}

/// No two options have one name.
pub open spec fn distinct_options(options: Seq<(Text, ValueType, Text)>) -> bool {
    forall|i: int, j: int|
        0 <= i < j < options.len() ==> (#[trigger] options[i]).0 != (#[trigger] options[j]).0
}

impl OptionList {
    /// No name stands twice.
    pub open spec fn wf(&self) -> bool {
        distinct_options(self@)
    }

    /// A list without options.
    pub fn new() -> (list: Self)
        ensures
            list.wf(),
            list@ == Seq::<(Text, ValueType, Text)>::empty(),
    {
        let list = OptionList { options: Vec::new() };
        proof {
            assert(list@ =~= Seq::<(Text, ValueType, Text)>::empty());
        }
        list
    }

    /// How many options the list has.
    pub fn len(&self) -> (n: usize)
        ensures
            n == self@.len(),
    {
        self.options.len()
    }

    /// Forgets every option.
    pub fn clear(&mut self)
        ensures
            final(self).wf(),
            final(self)@ == Seq::<(Text, ValueType, Text)>::empty(),
    {
        self.options.clear();
        proof {
            assert(self@ =~= Seq::<(Text, ValueType, Text)>::empty());
        }
    }

    /// Adds an option at the end, unless the list has one of that name:
    /// then the list stays as it is. Tells whether the option was added.
    pub fn add(&mut self, name: &str, kind: ValueType, help: &str) -> (added: bool)
        requires
            old(self).wf(),
        ensures
            final(self).wf(),
            added == (option_index(old(self)@, name@) == old(self)@.len()),
            final(self)@ == if added {
                old(self)@.push((name@, kind, help@))
            } else {
                old(self)@
            },
    {
        match self.find(name) {
            Some(_) => false,
            None => {
                self.options.push(
                    AllowedOption {
                        name: String::from_str(name),
                        spec: ValueSpec { kind, help: String::from_str(help) },
                    },
                );
                proof {
                    let before = old(self)@;
                    assert(self@ =~= before.push((name@, kind, help@)));
                    lemma_first_match(before, named(name@));
                    assert forall|i: int, j: int| 0 <= i < j < self@.len() implies (
                    #[trigger] self@[i]).0 != (#[trigger] self@[j]).0 by {
                        if j < before.len() {
                            assert(before[i].0 != before[j].0);
                        } else {
                            assert(!named(name@)(before[i]));
                        }
                    }
                }
                true
            },
        }
    }

    /// Where the first option named `name` stands.
    pub fn find(&self, name: &str) -> (at: Option<usize>)
        ensures
            match at {
                Some(i) => i < self@.len() && option_index(self@, name@) == i,
                None => option_index(self@, name@) == self@.len(),
            },
    {
        let mut i: usize = 0;
        while i < self.options.len()
            invariant
                i <= self.options.len(),
                forall|j: int| 0 <= j < i ==> (#[trigger] self@[j]).0 != name@,
            decreases self.options.len() - i,
        {
            if same_text(self.options[i].name.as_str(), name) {
                proof {
                    lemma_first_match_is(self@, named(name@), i as int);
                }
                return Some(i);
            }
            i += 1;
        }
        proof {
            lemma_first_match_is(self@, named(name@), i as int);
        }
        None
    }

    /// The kind of the option with index `i`.
    pub fn kind_at(&self, i: usize) -> (kind: ValueType)
        requires
            i < self@.len(),
        ensures
            kind == self@[i as int].1,
    {
        self.options[i].spec.kind
    }
}

/// The options of the server's command line.
pub open spec fn allowed_option_table() -> Seq<(Text, ValueType, Text)> {
    seq![
        ("help"@, ValueType::Flag, "Show allowed options"@),
        ("version"@, ValueType::Flag, "Show version information"@),
        ("config"@, ValueType::String, "Load configuration from specified file"@),
        ("port"@, ValueType::String, "Set network port (UDP)"@),
        ("run-unittests"@, ValueType::Flag, "Run the unit tests and exit"@),
        ("test-module"@, ValueType::String, "Only run the specified test module"@),
        ("map-dir"@, ValueType::String, "Same as --world (deprecated)"@),
        ("world"@, ValueType::String, "Set world path (implies local game if used with option --go)"@),
        ("worldname"@, ValueType::String, "Set world by name (implies local game if used with option --go)"@),
        ("worldlist"@, ValueType::String, "Get list of worlds ('path' lists paths, 'name' lists names, 'both' lists both)"@),
        ("quiet"@, ValueType::Flag, "Print to console errors only"@),
        ("color"@, ValueType::String, "Coloured logs ('always', 'never' or 'auto'), defaults to 'auto'"@),
        ("info"@, ValueType::Flag, "Print more information to console"@),
        ("verbose"@, ValueType::Flag, "Print even more information to console"@),
        ("trace"@, ValueType::Flag, "Print enormous amounts of information to log and console"@),
        ("debugger"@, ValueType::Flag, "Try to automatically attach a debugger before starting (convenience option)"@),
        ("logfile"@, ValueType::String, "Set logfile path ('' = no logging)"@),
        ("gameid"@, ValueType::String, "Set gameid (\"--gameid list\" prints available ones)"@),
        ("migrate"@, ValueType::String, "Migrate from current map backend to another (Only works when using minetestserver or with --server)"@),
        ("migrate-players"@, ValueType::String, "Migrate from current players backend to another (Only works when using minetestserver or with --server)"@),
        ("migrate-auth"@, ValueType::String, "Migrate from current auth backend to another (Only works when using minetestserver or with --server)"@),
        ("migrate-mod-storage"@, ValueType::String, "Migrate from current mod storage backend to another (Only works when using minetestserver or with --server)"@),
        ("terminal"@, ValueType::Flag, "Feature an interactive terminal (Only works when using minetestserver or with --server)"@),
        ("recompress"@, ValueType::Flag, "Recompress the blocks of the given map database."@),
    ]
}

/// Adds the next option of the server's command line to a list that holds
/// those before it.
fn add_listed(list: &mut OptionList, name: &str, kind: ValueType, help: &str)
    requires
        old(list).wf(),
        old(list)@.len() < allowed_option_table().len(),
        old(list)@ == allowed_option_table().take(old(list)@.len() as int),
        allowed_option_table()[old(list)@.len() as int] == (name@, kind, help@),
    ensures
        final(list).wf(),
        final(list)@.len() == old(list)@.len() + 1,
        final(list)@ == allowed_option_table().take(final(list)@.len() as int),
{
    proof {
        let table = allowed_option_table();
        let k = list@.len() as int;
        lemma_allowed_options_distinct();
        assert forall|j: int| 0 <= j < k implies !named(name@)(#[trigger] list@[j]) by {
            assert(list@[j] == table[j]);
            assert(table[j].0 != table[k].0);
        }
        lemma_first_match_is(list@, named(name@), k);
        assert(table.take(k).push(table[k]) =~= table.take(k + 1));
    }
    list.add(name, kind, help);
}

/// Makes `allowed_options` the list of the options that the server's command
/// line accepts, whatever it held before.
pub fn set_allowed_options(allowed_options: &mut OptionList)
    ensures
        final(allowed_options).wf(),
        final(allowed_options)@ == allowed_option_table(),
{
    allowed_options.clear();
    proof {
        assert(allowed_options@ =~= allowed_option_table().take(0));
    }
    add_listed(allowed_options, "help", ValueType::Flag, "Show allowed options");
    add_listed(allowed_options, "version", ValueType::Flag, "Show version information");
    add_listed(allowed_options, "config", ValueType::String, "Load configuration from specified file");
    add_listed(allowed_options, "port", ValueType::String, "Set network port (UDP)");
    add_listed(allowed_options, "run-unittests", ValueType::Flag, "Run the unit tests and exit");
    add_listed(allowed_options, "test-module", ValueType::String, "Only run the specified test module");
    add_listed(allowed_options, "map-dir", ValueType::String, "Same as --world (deprecated)");
    add_listed(allowed_options, "world", ValueType::String, "Set world path (implies local game if used with option --go)");
    add_listed(allowed_options, "worldname", ValueType::String, "Set world by name (implies local game if used with option --go)");
    add_listed(allowed_options, "worldlist", ValueType::String, "Get list of worlds ('path' lists paths, 'name' lists names, 'both' lists both)");
    add_listed(allowed_options, "quiet", ValueType::Flag, "Print to console errors only");
    add_listed(allowed_options, "color", ValueType::String, "Coloured logs ('always', 'never' or 'auto'), defaults to 'auto'");
    add_listed(allowed_options, "info", ValueType::Flag, "Print more information to console");
    add_listed(allowed_options, "verbose", ValueType::Flag, "Print even more information to console");
    add_listed(allowed_options, "trace", ValueType::Flag, "Print enormous amounts of information to log and console");
    add_listed(allowed_options, "debugger", ValueType::Flag, "Try to automatically attach a debugger before starting (convenience option)");
    add_listed(allowed_options, "logfile", ValueType::String, "Set logfile path ('' = no logging)");
    add_listed(allowed_options, "gameid", ValueType::String, "Set gameid (\"--gameid list\" prints available ones)");
    add_listed(allowed_options, "migrate", ValueType::String, "Migrate from current map backend to another (Only works when using minetestserver or with --server)");
    add_listed(allowed_options, "migrate-players", ValueType::String, "Migrate from current players backend to another (Only works when using minetestserver or with --server)");
    add_listed(allowed_options, "migrate-auth", ValueType::String, "Migrate from current auth backend to another (Only works when using minetestserver or with --server)");
    add_listed(allowed_options, "migrate-mod-storage", ValueType::String, "Migrate from current mod storage backend to another (Only works when using minetestserver or with --server)");
    add_listed(allowed_options, "terminal", ValueType::Flag, "Feature an interactive terminal (Only works when using minetestserver or with --server)");
    add_listed(allowed_options, "recompress", ValueType::Flag, "Recompress the blocks of the given map database.");
    proof {
        assert(allowed_option_table().take(24) =~= allowed_option_table());
    }
}

/// The column at which the help for an option begins.
pub const HELP_COLUMN: usize = 30;

/// `n` spaces.
pub open spec fn spaces(n: nat) -> Text {
    Seq::new(n, |i: int| ' ')
}

/// `text` with spaces behind it up to the width `width`; as it is where it
/// is as wide or wider.
pub open spec fn pad_right(text: Text, width: nat) -> Text {
    if text.len() < width {
        text + spaces((width - text.len()) as nat)
    } else {
        text
    }
}

/// The option as help names it: with two dashes before it, and a mark that
/// it takes a value where it does.
pub open spec fn option_title(option: (Text, ValueType, Text)) -> Text {
    if option.1 == ValueType::Flag {
        "  --"@ + option.0
    } else {
        "  --"@ + option.0 + " <value>"@
    }
}

/// What help shows for one option: its title, padded to the help column;
/// a line break and an empty column where the title fills the column; the
/// help text, where there is one, on a line of its own end; an empty line.
pub open spec fn option_text(option: (Text, ValueType, Text)) -> Text {
    let title = option_title(option);
    let head = if title.len() < HELP_COLUMN {
        pad_right(title, HELP_COLUMN as nat)
    } else {
        title + "\n"@ + spaces(HELP_COLUMN as nat)
    };
    if option.2.len() > 0 {
        head + option.2 + "\n"@ + "\n"@
    } else {
        head + "\n"@
    }
}

/// What help shows for the first `n` of `options`.
pub open spec fn options_text(options: Seq<(Text, ValueType, Text)>, n: nat) -> Text
    decreases n,
{
    if n == 0 {
        Seq::empty()
    } else {
        options_text(options, (n - 1) as nat) + option_text(options[n - 1])
    }
}

/// Writes `n` spaces to the end of `os`.
pub fn write_spaces(os: &mut String, n: usize)
    ensures
        final(os)@ == old(os)@ + spaces(n as nat),
{
    let mut i: usize = 0;
    proof {
        assert(os@ =~= old(os)@ + spaces(0));
        reveal_strlit(" ");
    }
    while i < n
        invariant
            i <= n,
            os@ == old(os)@ + spaces(i as nat),
            " "@ == seq![' '],
        decreases n - i,
    {
        os.append(" ");
        proof {
            assert(os@ =~= old(os)@ + spaces((i + 1) as nat));
        }
        i += 1;
    }
}

/// Writes to the end of `os` what help shows for each of the options.
pub fn print_allowed_options(allowed_options: &OptionList, os: &mut String)
    ensures
        final(os)@ == old(os)@ + options_text(allowed_options@, allowed_options@.len()),
{
    let mut i: usize = 0;
    proof {
        assert(os@ =~= old(os)@ + options_text(allowed_options@, 0));
    }
    while i < allowed_options.options.len()
        invariant
            i <= allowed_options.options.len(),
            os@ == old(os)@ + options_text(allowed_options@, i as nat),
        decreases allowed_options.options.len() - i,
    {
        let ghost before = os@;
        let option = &allowed_options.options[i];
        assert(allowed_options@[i as int] == option@);
        let mut title = String::from_str("  --");
        title.append(option.name.as_str());
        match option.spec.kind {
            ValueType::Flag => {},
            ValueType::String => {
                title.append(" <value>");
            },
        }
        assert(title@ == option_title(option@));
        let width = title.as_str().unicode_len();
        os.append(title.as_str());
        if width < HELP_COLUMN {
            write_spaces(os, HELP_COLUMN - width);
        } else {
            os.append("\n");
            write_spaces(os, HELP_COLUMN);
        }
        if !option.spec.help.as_str().is_empty() {
            os.append(option.spec.help.as_str());
            os.append("\n");
        }
        os.append("\n");
        proof {
            assert(os@ =~= before + option_text(option@));
            assert(os@ =~= old(os)@ + options_text(allowed_options@, (i + 1) as nat));
        }
        i += 1;
    }
}

/// Writes the help to the end of `os`: a heading and the options.
pub fn print_help(allowed_options: &OptionList, os: &mut String)
    ensures
        final(os)@ == old(os)@ + "Allowed options:\n"@ + options_text(
            allowed_options@,
            allowed_options@.len(),
        ),
{
    os.append("Allowed options:\n");
    print_allowed_options(allowed_options, os);
    proof {
        assert(os@ =~= old(os)@ + "Allowed options:\n"@ + options_text(
            allowed_options@,
            allowed_options@.len(),
        ));
    }
}

/// Writes to the end of `os` which program this is: its name, its version
/// and the platform on one line, how it was built on the next.
pub fn print_version(
    project_name: &str,
    version_hash: &str,
    platform_name: &str,
    build_info: &str,
    os: &mut String,
)
    ensures
        final(os)@ == old(os)@ + project_name@ + " "@ + version_hash@ + " ("@ + platform_name@
            + ")\n"@ + build_info@ + "\n"@,
{
    os.append(project_name);
    os.append(" ");
    os.append(version_hash);
    os.append(" (");
    os.append(platform_name);
    os.append(")\n");
    os.append(build_info);
    os.append("\n");
}

/// What tells the names of the server's options apart: the length of a name,
/// its first, its fourth and its last character.
spec fn mark(name: Text) -> (nat, char, char, char) {
    (name.len(), name[0], name[3], name.last())
}

/// No option of the server's command line stands twice.
pub proof fn lemma_allowed_options_distinct()
    ensures
        distinct_options(allowed_option_table()),
{
    reveal_strlit("help");
    assert(mark("help"@) == (4nat, 'h', 'p', 'p'));
    reveal_strlit("version");
    assert(mark("version"@) == (7nat, 'v', 's', 'n'));
    reveal_strlit("config");
    assert(mark("config"@) == (6nat, 'c', 'f', 'g'));
    reveal_strlit("port");
    assert(mark("port"@) == (4nat, 'p', 't', 't'));
    reveal_strlit("run-unittests");
    assert(mark("run-unittests"@) == (13nat, 'r', '-', 's'));
    reveal_strlit("test-module");
    assert(mark("test-module"@) == (11nat, 't', 't', 'e'));
    reveal_strlit("map-dir");
    assert(mark("map-dir"@) == (7nat, 'm', '-', 'r'));
    reveal_strlit("world");
    assert(mark("world"@) == (5nat, 'w', 'l', 'd'));
    reveal_strlit("worldname");
    assert(mark("worldname"@) == (9nat, 'w', 'l', 'e'));
    reveal_strlit("worldlist");
    assert(mark("worldlist"@) == (9nat, 'w', 'l', 't'));
    reveal_strlit("quiet");
    assert(mark("quiet"@) == (5nat, 'q', 'e', 't'));
    reveal_strlit("color");
    assert(mark("color"@) == (5nat, 'c', 'o', 'r'));
    reveal_strlit("info");
    assert(mark("info"@) == (4nat, 'i', 'o', 'o'));
    reveal_strlit("verbose");
    assert(mark("verbose"@) == (7nat, 'v', 'b', 'e'));
    reveal_strlit("trace");
    assert(mark("trace"@) == (5nat, 't', 'c', 'e'));
    reveal_strlit("debugger");
    assert(mark("debugger"@) == (8nat, 'd', 'u', 'r'));
    reveal_strlit("logfile");
    assert(mark("logfile"@) == (7nat, 'l', 'f', 'e'));
    reveal_strlit("gameid");
    assert(mark("gameid"@) == (6nat, 'g', 'e', 'd'));
    reveal_strlit("migrate");
    assert(mark("migrate"@) == (7nat, 'm', 'r', 'e'));
    reveal_strlit("migrate-players");
    assert(mark("migrate-players"@) == (15nat, 'm', 'r', 's'));
    reveal_strlit("migrate-auth");
    assert(mark("migrate-auth"@) == (12nat, 'm', 'r', 'h'));
    reveal_strlit("migrate-mod-storage");
    assert(mark("migrate-mod-storage"@) == (19nat, 'm', 'r', 'e'));
    reveal_strlit("terminal");
    assert(mark("terminal"@) == (8nat, 't', 'm', 'l'));
    reveal_strlit("recompress");
    assert(mark("recompress"@) == (10nat, 'r', 'o', 's'));
    let t = allowed_option_table();
    assert(t.len() == 24);
    assert forall|i: int, j: int| 0 <= i < j < t.len() implies (#[trigger] t[i]).0 != (
    #[trigger] t[j]).0 by {
        assert(mark(t[i].0) != mark(t[j].0));
    }
}

} // verus!
