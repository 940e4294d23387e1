use vstd::prelude::*;
use crate::search::{first_match, lemma_first_match_is};
use crate::text::{same_text, split, split_text, texts, Text};

verus! {

/// Separates the directories of a search path.
pub const PATH_DELIM: char = ':';

/// Separates the parts of a file path.
pub const DIR_DELIM_CHAR: char = '/';

/// The file `name` in the directory `dir`: a separator stands between them
/// unless `dir` is empty or ends in one.
pub open spec fn candidate_path(dir: Text, name: Text) -> Text {
    if dir.len() > 0 && dir.last() != DIR_DELIM_CHAR {
        dir + "/"@ + name
    } else {
        dir + name
    }
}

/// Where the program `name` may lie by the search path `path`, in the order
/// of the path. An empty path names no place.
pub open spec fn program_candidates(name: Text, path: Text) -> Seq<Text> {
    if path.len() == 0 {
        Seq::empty()
    } else {
        split_text(path, PATH_DELIM).map_values(|dir: Text| candidate_path(dir, name))
    }
}

/// The file `name` in the directory `dir`.
pub fn join_path(dir: &str, name: &str) -> (joined: String)
    ensures
        joined@ == candidate_path(dir@, name@),
{
    let n = dir.unicode_len();
    let mut joined = String::from_str(dir);
    if n > 0 && dir.get_char(n - 1) != DIR_DELIM_CHAR {
        proof {
            reveal_strlit("/");
        }
        joined.append("/");
    }
    joined.append(name);
    joined
}

/// Lists where the program `name` may lie by the search path `path`, in the
/// order of the path.
pub fn candidate_paths(name: &str, path: &str) -> (candidates: Vec<String>)
    ensures
        texts(candidates@) == program_candidates(name@, path@),
{
    let mut candidates: Vec<String> = Vec::new();
    if path.is_empty() {
        proof {
            assert(texts(candidates@) =~= Seq::<Text>::empty());
        }
        return candidates;
    }
    let dirs = split(path, PATH_DELIM);
    let mut i: usize = 0;
    while i < dirs.len()
        invariant
            i <= dirs.len(),
            candidates@.len() == i,
            forall|j: int| 0 <= j < i ==> (#[trigger] candidates@[j])@ == candidate_path(
                dirs@[j]@,
                name@,
            ),
        decreases dirs.len() - i,
    {
        candidates.push(join_path(dirs[i].as_str(), name));
        i += 1;
    }
    proof {
        assert(texts(candidates@) =~= texts(dirs@).map_values(
            |dir: Text| candidate_path(dir, name@),
        ));
    }
    candidates
}

/// Whether a file was found to be executable.
pub open spec fn is_true() -> spec_fn(bool) -> bool {
    |yes: bool| yes
}

/// The program among `candidates`, of which `executable` tells one by one
/// whether it can be run: the leftmost that can; the empty text where none
/// can.
pub open spec fn leftmost_executable(candidates: Seq<Text>, executable: Seq<bool>) -> Text {
    let k = first_match(executable, is_true());
    if k < candidates.len() {
        candidates[k]
    } else {
        Seq::empty()
    }
}

/// Picks the program among `candidates`: the leftmost that is executable,
/// the empty text where none is.
pub fn first_executable(candidates: &Vec<String>, executable: &Vec<bool>) -> (program: String)
    requires
        executable@.len() == candidates@.len(),
    ensures
        program@ == leftmost_executable(texts(candidates@), executable@),
{
    let mut i: usize = 0;
    while i < candidates.len()
        invariant
            i <= candidates.len(),
            executable@.len() == candidates@.len(),
            forall|j: int| 0 <= j < i ==> !is_true()(#[trigger] executable@[j]),
        decreases candidates.len() - i,
    {
        if executable[i] {
            proof {
                lemma_first_match_is(executable@, is_true(), i as int);
                assert(texts(candidates@)[i as int] == candidates@[i as int]@);
            }
            return candidates[i].clone();
        }
        i += 1;
    }
    proof {
        lemma_first_match_is(executable@, is_true(), i as int);
    }
    String::new()
}

/// Where a search asks of a file whether it can be run.
///
/// `asked` is the history of the questions and their answers. The search's
/// contract states what it asked and what it made of each answer.
pub trait PathProbe {
    spec fn asked(&self) -> Seq<(Text, bool)>;

    /// Whether the file at `path` can be run.
    fn is_executable(&mut self, path: &str) -> (yes: bool)
        ensures
            final(self).asked() == old(self).asked().push((path@, yes)),
    ;
}

/// What looks at the files themselves. Nothing is asked of an implementation
/// but that it return.
pub trait FileCheck {
    fn is_executable(&mut self, path: &str) -> bool;
}

/// A probe that hands each question on to a check of the files, and
/// remembers what it asked and was told.
pub struct CheckedProbe<F: FileCheck> {
    pub check: F,
    pub told: Ghost<Seq<(Text, bool)>>,
}

impl<F: FileCheck> CheckedProbe<F> {
    /// A probe in front of `check` that was asked nothing yet.
    pub fn new(check: F) -> (probe: Self)
        ensures
            probe.check == check,
            probe.asked() == Seq::<(Text, bool)>::empty(),
    {
        CheckedProbe { check, told: Ghost(Seq::empty()) }
    }
}

impl<F: FileCheck> PathProbe for CheckedProbe<F> {
    open spec fn asked(&self) -> Seq<(Text, bool)> {
        self.told@
    }

    fn is_executable(&mut self, path: &str) -> (yes: bool) {
        let yes = self.check.is_executable(path);
        proof {
            self.told@ = self.told@.push((path@, yes));
        }
        yes
    }
}

/// The answers of `answers`, without the questions.
pub open spec fn verdicts(answers: Seq<(Text, bool)>) -> Seq<bool> {
    answers.map_values(|a: (Text, bool)| a.1)
}

/// What a search among `candidates` asked and found: it asked of the
/// candidates from the left, one question for each, and stopped at the first
/// that can be run, which is the program; where none can, it asked of all
/// of them and the program is the empty text.
pub open spec fn search_outcome(
    candidates: Seq<Text>,
    answers: Seq<(Text, bool)>,
    program: Text,
) -> bool {
    let k = first_match(verdicts(answers), is_true());
    &&& answers.len() <= candidates.len()
    &&& forall|i: int| 0 <= i < answers.len() ==> (#[trigger] answers[i]).0 == candidates[i]
    &&& if k < answers.len() {
        k == answers.len() - 1
    } else {
        answers.len() == candidates.len()
    }
    &&& program == leftmost_executable(candidates, verdicts(answers))
}

/// Finds the program `name` by the search path `path`, which the caller
/// reads from the environment: the leftmost place of the path at which
/// `probe` finds a file that can be run. The empty text where there is none,
/// or where the path is empty.
#[allow(non_snake_case)]
pub fn findProgram<Q: PathProbe>(name: &str, path: &str, probe: &mut Q) -> (program: String)
    ensures
        old(probe).asked() == final(probe).asked().take(old(probe).asked().len() as int),
        search_outcome(
            program_candidates(name@, path@),
            final(probe).asked().skip(old(probe).asked().len() as int),
            program@,
        ),
{
    let candidates = candidate_paths(name, path);
    let ghost before = old(probe).asked();
    let ghost mut answers: Seq<(Text, bool)> = Seq::empty();
    let mut i: usize = 0;
    proof {
        assert(probe.asked() =~= before + answers);
    }
    while i < candidates.len()
        invariant
            i <= candidates.len(),
            before == old(probe).asked(),
            probe.asked() == before + answers,
            answers.len() == i,
            texts(candidates@) == program_candidates(name@, path@),
            forall|j: int|
                0 <= j < i ==> (#[trigger] answers[j]).0 == candidates@[j]@ && !answers[j].1,
        decreases candidates.len() - i,
    {
        let yes = probe.is_executable(candidates[i].as_str());
        proof {
            answers = answers.push((candidates@[i as int]@, yes));
            assert(probe.asked() =~= before + answers);
        }
        if yes {
            proof {
                lemma_search_outcome(texts(candidates@), answers);
                assert((before + answers).take(before.len() as int) =~= before);
                assert((before + answers).skip(before.len() as int) =~= answers);
            }
            return candidates[i].clone();
        }
        i += 1;
    }
    proof {
        lemma_search_outcome(texts(candidates@), answers);
        assert((before + answers).take(before.len() as int) =~= before);
        assert((before + answers).skip(before.len() as int) =~= answers);
    }
    String::new()
}

/// Answers that were all no but perhaps the last make up a search: its
/// program is the candidate of a last yes, or none.
proof fn lemma_search_outcome(candidates: Seq<Text>, answers: Seq<(Text, bool)>)
    requires
        answers.len() <= candidates.len(),
        forall|j: int| 0 <= j < answers.len() ==> (#[trigger] answers[j]).0 == candidates[j],
        forall|j: int| 0 <= j < answers.len() - 1 ==> !(#[trigger] answers[j]).1,
        answers.len() > 0 && answers.last().1 || answers.len() == candidates.len(),
    ensures
        search_outcome(
            candidates,
            answers,
            if answers.len() > 0 && answers.last().1 {
                candidates[answers.len() - 1]
            } else {
                Seq::empty()
            },
        ),
{
    let v = verdicts(answers);
    let n = answers.len() as int;
    if n > 0 && answers.last().1 {
        assert forall|j: int| 0 <= j < n - 1 implies !is_true()(#[trigger] v[j]) by {
            assert(v[j] == answers[j].1);
        }
        assert(v[n - 1] == answers[n - 1].1);
        lemma_first_match_is(v, is_true(), n - 1);
    } else {
        assert forall|j: int| 0 <= j < n implies !is_true()(#[trigger] v[j]) by {
            assert(v[j] == answers[j].1);
            if j == n - 1 {
            } else {
                assert(!answers[j].1);
            }
        }
        lemma_first_match_is(v, is_true(), n);
    }
}

/// The debuggers that can be attached, by index.
pub open spec fn debugger_name_text(i: int) -> Option<Text> {
    if i == 0 {
        Some("gdb"@)
    } else if i == 1 {
        Some("lldb"@)
    } else {
        None
    }
}

/// The name of the debugger with index `i`.
pub fn debugger_name(i: usize) -> (name: Option<&'static str>)
    ensures
        match name {
            Some(n) => debugger_name_text(i as int) == Some(n@),
            None => debugger_name_text(i as int) is None,
        },
{
    if i == 0 {
        Some("gdb")
    } else if i == 1 {
        Some("lldb")
    } else {
        None
    }
}

/// The arguments that make the debugger with index `i` run the program and
/// print a backtrace; none for an index that names no debugger.
pub open spec fn debugger_args(i: int) -> Seq<Text> {
    if i == 0 {
        seq![
            "-q"@,
            "--batch"@,
            "-iex"@,
            "set confirm off"@,
            "-ex"@,
            "run"@,
            "-ex"@,
            "bt"@,
            "--args"@,
        ]
    } else if i == 1 {
        seq!["-Q"@, "-b"@, "-o"@, "run"@, "-k"@, "bt\nq"@, "--"@]
    } else {
        Seq::empty()
    }
}

/// Adds one argument at the end of `out`.
pub fn push_arg(out: &mut Vec<String>, arg: &str)
    ensures
        texts(final(out)@) == texts(old(out)@).push(arg@),
{
    out.push(String::from_str(arg));
    proof {
        assert(texts(out@) =~= texts(old(out)@).push(arg@));
    }
}

/// Adds to `out` the arguments for the debugger with index `i`.
#[allow(non_snake_case)]
pub fn getDebuggerArgs(out: &mut Vec<String>, i: i32)
    ensures
        texts(final(out)@) == texts(old(out)@) + debugger_args(i as int),
{
    if i == 0 {
        push_arg(out, "-q");
        push_arg(out, "--batch");
        push_arg(out, "-iex");
        push_arg(out, "set confirm off");
        push_arg(out, "-ex");
        push_arg(out, "run");
        push_arg(out, "-ex");
        push_arg(out, "bt");
        push_arg(out, "--args");
    } else if i == 1 {
        push_arg(out, "-Q");
        push_arg(out, "-b");
        push_arg(out, "-o");
        push_arg(out, "run");
        push_arg(out, "-k");
        push_arg(out, "bt\nq");
        push_arg(out, "--");
    }
    proof {
        assert(texts(out@) =~= texts(old(out)@) + debugger_args(i as int));
    }
}

/// Index of the first debugger that was found: the first of the two entries
/// of `found` that is not empty.
pub open spec fn first_found(found: Seq<Text>) -> Option<int> {
    if found.len() > 0 && found[0].len() > 0 {
        Some(0)
    } else if found.len() > 1 && found[1].len() > 0 {
        Some(1)
    } else {
        None
    }
}

/// The arguments with index 1 up to `n`, without the option that asked for
/// the debugger.
pub open spec fn forwarded_args(args: Seq<Text>, n: nat) -> Seq<Text>
    decreases n,
{
    if n <= 1 {
        Seq::empty()
    } else if args[n - 1] == "--debugger"@ {
        forwarded_args(args, (n - 1) as nat)
    } else {
        forwarded_args(args, (n - 1) as nat).push(args[n - 1])
    }
}

/// The command that runs the program under a debugger: the debugger, its own
/// arguments, the program, and the program's arguments. There is none where
/// the program's path is not known or no debugger was found.
pub open spec fn debugger_command(args: Seq<Text>, exec_path: Option<Text>, found: Seq<Text>)
    -> Option<Seq<Text>> {
    match (exec_path, first_found(found)) {
        (Some(program), Some(d)) => Some(
            seq![found[d]] + debugger_args(d) + seq![program] + forwarded_args(args, args.len()),
        ),
        _ => None,
    }
}

/// Composes the command that runs the program again under a debugger. The
/// caller finds out the program's own path and where each debugger lies
/// (an empty text for one that is not installed), and runs the command.
pub fn use_debugger(args: &Vec<String>, exec_path: Option<&str>, found: &Vec<String>) -> (command:
    Option<Vec<String>>)
    ensures
        match command {
            Some(c) => debugger_command(
                texts(args@),
                match exec_path {
                    Some(p) => Some(p@),
                    None => None,
                },
                texts(found@),
            ) == Some(texts(c@)),
            None => debugger_command(
                texts(args@),
                match exec_path {
                    Some(p) => Some(p@),
                    None => None,
                },
                texts(found@),
            ) is None,
        },
{
    let program = match exec_path {
        Some(p) => p,
        None => {
            return None;
        },
    };
    let debugger: i32 = if found.len() > 0 && !found[0].as_str().is_empty() {
        0
    } else if found.len() > 1 && !found[1].as_str().is_empty() {
        1
    } else {
        return None;
    };
    let debugger_path = if debugger == 0 {
        found[0].as_str()
    } else {
        found[1].as_str()
    };
    let mut command: Vec<String> = Vec::new();
    push_arg(&mut command, debugger_path);
    getDebuggerArgs(&mut command, debugger);
    push_arg(&mut command, program);
    let ghost head = texts(command@);
    let mut i: usize = 1;
    proof {
        assert(texts(Seq::<String>::empty()) =~= Seq::<Text>::empty());
        assert(head =~= seq![texts(found@)[debugger as int]] + debugger_args(debugger as int)
            + seq![program@]);
        assert(head + forwarded_args(texts(args@), 1) =~= head);
        assert(texts(found@)[debugger as int] == found@[debugger as int]@);
    }
    while i < args.len()
        invariant
            1 <= i,
            i <= args.len() || i == 1,
            texts(command@) == head + forwarded_args(texts(args@), i as nat),
            head == seq![texts(found@)[debugger as int]] + debugger_args(debugger as int) + seq![
                program@,
            ],
            first_found(texts(found@)) == Some(debugger as int),
            exec_path == Some(program),
        decreases args.len() - i,
    {
        let ghost before = texts(command@);
        if !same_text(args[i].as_str(), "--debugger") {
            push_arg(&mut command, args[i].as_str());
        }
        proof {
            assert(texts(args@)[i as int] == args@[i as int]@);
            assert(texts(command@) =~= head + forwarded_args(texts(args@), (i + 1) as nat));
        }
        i += 1;
    }
    proof {
        assert(texts(args@).len() == args@.len());
        if args.len() == 0 {
            assert(forwarded_args(texts(args@), 1) == Seq::<Text>::empty());
            assert(forwarded_args(texts(args@), 0) == Seq::<Text>::empty());
        }
    }
    Some(command)
}

} // verus!
