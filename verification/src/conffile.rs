use vstd::prelude::*;
use crate::metadata::{with_value, Settings};
use crate::search::{first_match, lemma_first_match, lemma_first_match_is};
use crate::text::{
    first_delim, is_char, lemma_first_delim_is, lemma_split_joined, split, split_text, texts, Text,
};

verus! {

/// Whether `c` is white space: a blank, a tab or the end of a line.
pub open spec fn is_space(c: char) -> bool {
    c == ' ' || c == '\t' || c == '\n' || c == '\r'
}

/// Whether a character is no white space.
pub open spec fn no_space() -> spec_fn(char) -> bool {
    |c: char| !is_space(c)
}

/// How many characters of white space `text` begins with.
pub open spec fn leading_space(text: Text) -> int {
    first_match(text, no_space())
}

/// How many characters of white space `text` ends with.
pub open spec fn trailing_space(text: Text) -> nat
    decreases text.len(),
{
    if text.len() > 0 && is_space(text.last()) {
        1 + trailing_space(text.drop_last())
    } else {
        0
    }
}

/// `text` without the white space at its ends.
pub open spec fn trimmed(text: Text) -> Text {
    let from = leading_space(text);
    let rest = text.skip(from);
    rest.take(rest.len() - trailing_space(rest))
}

/// The entry that a line of a configuration file holds: the name before the
/// first `=` and the value behind it, both without the white space at their
/// ends. A line that is empty, that begins with `#`, that has no `=` or no
/// name holds none.
pub open spec fn config_entry(line: Text) -> Option<(Text, Text)> {
    let t = trimmed(line);
    if t.len() == 0 || t[0] == '#' {
        None
    } else {
        let i = first_delim(t, '=');
        if i >= t.len() {
            None
        } else if trimmed(t.take(i)).len() == 0 {
            None
        } else {
            Some((trimmed(t.take(i)), trimmed(t.skip(i + 1))))
        }
    }
}

proof fn lemma_trailing_space_is(text: Text, n: nat)
    requires
        n <= text.len(),
        forall|j: int| text.len() - n <= j < text.len() ==> is_space(text[j]),
        n < text.len() ==> !is_space(text[text.len() - n - 1]),
    ensures
        trailing_space(text) == n,
    decreases n,
{
    if n > 0 {
        let rest = text.drop_last();
        assert forall|j: int| rest.len() - (n - 1) <= j < rest.len() implies is_space(rest[j]) by {
            assert(rest[j] == text[j]);
        }
        if n < text.len() {
            assert(rest[rest.len() - (n - 1) - 1] == text[text.len() - n - 1]);
        }
        lemma_trailing_space_is(rest, (n - 1) as nat);
    }
}

/// Whether `c` is white space.
pub fn is_space_char(c: char) -> (space: bool)
    ensures
        space == is_space(c),
{
    c == ' ' || c == '\t' || c == '\n' || c == '\r'
}

/// `text` without the white space at its ends.
pub fn trim<'a>(text: &'a str) -> (out: &'a str)
    ensures
        out@ == trimmed(text@),
{
    let n = text.unicode_len();
    let mut from: usize = 0;
    while from < n && is_space_char(text.get_char(from))
        invariant
            n == text@.len(),
            from <= n,
            forall|j: int| 0 <= j < from ==> is_space(text@[j]),
        decreases n - from,
    {
        from += 1;
    }
    let mut to: usize = n;
    while to > from && is_space_char(text.get_char(to - 1))
        invariant
            n == text@.len(),
            from <= to <= n,
            forall|j: int| to <= j < n ==> is_space(text@[j]),
        decreases to,
    {
        to -= 1;
    }
    proof {
        lemma_first_match_is(text@, no_space(), from as int);
        let rest = text@.skip(from as int);
        assert forall|j: int| rest.len() - (n - to) <= j < rest.len() implies is_space(rest[j]) by {
            assert(rest[j] == text@[j + from]);
        }
        if n - to < rest.len() {
            assert(rest[rest.len() - (n - to) - 1] == text@[to - 1]);
        }
        lemma_trailing_space_is(rest, (n - to) as nat);
        assert(rest.take(rest.len() - (n - to)) =~= text@.subrange(from as int, to as int));
    }
    text.substring_char(from, to)
}

/// Reads one line of a configuration file.
pub fn parse_config_line(line: &str) -> (entry: Option<(String, String)>)
    ensures
        match entry {
            Some((name, value)) => config_entry(line@) == Some((name@, value@)),
            None => config_entry(line@) is None,
        },
{
    let t = trim(line);
    let n = t.unicode_len();
    if n == 0 || t.get_char(0) == '#' {
        return None;
    }
    let mut i: usize = 0;
    while i < n && t.get_char(i) != '='
        invariant
            n == t@.len(),
            i <= n,
            forall|j: int| 0 <= j < i ==> t@[j] != '=',
        decreases n - i,
    {
        i += 1;
    }
    proof {
        lemma_first_delim_is(t@, '=', i as int);
    }
    if i >= n {
        return None;
    }
    let before = t.substring_char(0, i);
    let after = t.substring_char(i + 1, n);
    proof {
        assert(before@ =~= t@.take(i as int));
        assert(after@ =~= t@.skip(i + 1));
    }
    let name = trim(before);
    if name.unicode_len() == 0 {
        return None;
    }
    let value = trim(after);
    Some((String::from_str(name), String::from_str(value)))
}

/// Takes the entry of `line`, where it holds one, into `settings`. Tells
/// whether it held one.
pub fn read_config_line(settings: &mut Settings, line: &str) -> (taken: bool)
    ensures
        taken == (config_entry(line@) is Some),
        final(settings)@ == match config_entry(line@) {
            Some((name, value)) => with_value(old(settings)@, name, value),
            None => old(settings)@,
        },
{
    match parse_config_line(line) {
        Some((name, value)) => {
            settings.set(name.as_str(), value.as_str());
            true
        },
        None => false,
    }
}

/// The settings `entries` after the first `n` of `lines` were read into them.
pub open spec fn entries_read(entries: Seq<(Text, Text)>, lines: Seq<Text>, n: nat) -> Seq<
    (Text, Text),
>
    decreases n,
{
    if n == 0 {
        entries
    } else {
        let before = entries_read(entries, lines, (n - 1) as nat);
        match config_entry(lines[n - 1]) {
            Some((name, value)) => with_value(before, name, value),
            None => before,
        }
    }
}

/// Reads the text of a configuration file into `settings`, line by line.
/// Of two lines with one name the later stands.
pub fn read_config_text(settings: &mut Settings, text: &str)
    ensures
        final(settings)@ == entries_read(
            old(settings)@,
            split_text(text@, '\n'),
            split_text(text@, '\n').len(),
        ),
{
    let lines = split(text, '\n');
    let mut i: usize = 0;
    while i < lines.len()
        invariant
            i <= lines.len(),
            settings@ == entries_read(old(settings)@, texts(lines@), i as nat),
        decreases lines.len() - i,
    {
        assert(texts(lines@)[i as int] == lines@[i as int]@);
        read_config_line(settings, lines[i].as_str());
        i += 1;
    }
}

/// The line that holds `value` under `name` in a configuration file.
pub open spec fn config_line(name: Text, value: Text) -> Text {
    name + " = "@ + value + "\n"@
}

/// The lines of the first `n` of `entries`.
pub open spec fn config_lines(entries: Seq<(Text, Text)>, n: nat) -> Text
    decreases n,
{
    if n == 0 {
        Seq::empty()
    } else {
        config_lines(entries, (n - 1) as nat) + config_line(entries[n - 1].0, entries[n - 1].1)
    }
}

/// Writes the entries of `settings` as the lines of a configuration file,
/// in their order.
pub fn write_config_text(settings: &Settings) -> (text: String)
    ensures
        text@ == config_lines(settings@, settings@.len()),
{
    let mut text = String::new();
    let mut i: usize = 0;
    while i < settings.len()
        invariant
            i <= settings@.len(),
            text@ == config_lines(settings@, i as nat),
        decreases settings@.len() - i,
    {
        let (name, value) = settings.entry(i);
        text.append(name.as_str());
        text.append(" = ");
        text.append(value.as_str());
        text.append("\n");
        proof {
            assert(text@ =~= config_lines(settings@, (i + 1) as nat));
        }
        i += 1;
    }
    text
}

/// Where a text has no white space before `from` or from `to` on, and none
/// at either end in between, what is in between is the text trimmed.
proof fn lemma_trimmed_is(text: Text, from: int, to: int)
    requires
        0 <= from < to <= text.len(),
        forall|j: int| 0 <= j < from ==> is_space(text[j]),
        forall|j: int| to <= j < text.len() ==> is_space(text[j]),
        !is_space(text[from]),
        !is_space(text[to - 1]),
    ensures
        trimmed(text) == text.subrange(from, to),
{
    lemma_first_match_is(text, no_space(), from);
    let rest = text.skip(from);
    assert forall|j: int| rest.len() - (text.len() - to) <= j < rest.len() implies is_space(
        rest[j],
    ) by {
        assert(rest[j] == text[j + from]);
    }
    assert(rest[rest.len() - (text.len() - to) - 1] == text[to - 1]);
    lemma_trailing_space_is(rest, (text.len() - to) as nat);
    assert(rest.take(rest.len() - (text.len() - to)) =~= text.subrange(from, to));
}

/// A text ends with no more white space than it is long.
proof fn lemma_trailing_space_bound(text: Text)
    ensures
        trailing_space(text) <= text.len(),
    decreases text.len(),
{
    if text.len() > 0 && is_space(text.last()) {
        lemma_trailing_space_bound(text.drop_last());
    }
}

/// A text that trimming leaves as it is has no white space at its ends.
proof fn lemma_plain_ends(text: Text)
    requires
        trimmed(text) == text,
        text.len() > 0,
    ensures
        !is_space(text[0]),
        !is_space(text.last()),
{
    lemma_first_match(text, no_space());
    let from = leading_space(text);
    let rest = text.skip(from);
    lemma_trailing_space_bound(rest);
    assert(trimmed(text).len() == rest.len() - trailing_space(rest));
    assert(from == 0);
    assert(rest =~= text);
    assert(trailing_space(text) == 0);
}

/// Whether a text can stand in a line as it is: whether it has no white
/// space at its ends and no line break within.
pub open spec fn plain(text: Text) -> bool {
    &&& trimmed(text) == text
    &&& forall|i: int| 0 <= i < text.len() ==> text[i] != '\n'
}

/// Whether a text can be the name of an entry: whether it is plain, not
/// empty, no comment, and holds no `=`.
pub open spec fn plain_name(text: Text) -> bool {
    &&& plain(text)
    &&& text.len() > 0
    &&& text[0] != '#'
    &&& forall|i: int| 0 <= i < text.len() ==> text[i] != '='
}

/// What is written for an entry, without the end of the line.
pub open spec fn entry_text(name: Text, value: Text) -> Text {
    name + " = "@ + value
}

/// A line as it is written for an entry is read as that entry.
pub proof fn law_config_line_round_trip(name: Text, value: Text)
    requires
        plain_name(name),
        plain(value),
    ensures
        config_entry(entry_text(name, value)) == Some((name, value)),
{
    reveal_strlit(" = ");
    let sep = " = "@;
    assert(sep.len() == 3 && sep[0] == ' ' && sep[1] == '=' && sep[2] == ' ');
    let line = entry_text(name, value);
    let n = name.len() as int;
    let v = value.len() as int;
    assert(line.len() == n + 3 + v);
    assert forall|j: int| 0 <= j < n implies line[j] == name[j] by {}
    assert(line[n] == ' ' && line[n + 1] == '=' && line[n + 2] == ' ');
    assert forall|j: int| 0 <= j < v implies line[n + 3 + j] == value[j] by {}
    lemma_plain_ends(name);
    let to = if v > 0 {
        n + 3 + v
    } else {
        n + 2
    };
    if v > 0 {
        lemma_plain_ends(value);
        assert(line[to - 1] == value[v - 1]);
    }
    lemma_trimmed_is(line, 0, to);
    let t = trimmed(line);
    assert(t == line.subrange(0, to));
    assert forall|j: int| 0 <= j < n + 1 implies t[j] != '=' by {
        if j < n {
            assert(t[j] == name[j]);
        }
    }
    assert(t[n + 1] == '=');
    lemma_first_delim_is(t, '=', n + 1);
    let before = t.take(n + 1);
    assert(before[n] == ' ');
    assert(before[0] == name[0]);
    assert(before[n - 1] == name[n - 1]);
    lemma_trimmed_is(before, 0, n);
    assert(before.subrange(0, n) =~= name);
    let after = t.skip(n + 2);
    if v > 0 {
        assert(after[0] == ' ');
        assert(after[1] == value[0]);
        assert(after[v] == value[v - 1]);
        lemma_trimmed_is(after, 1, 1 + v);
        assert(after.subrange(1, 1 + v) =~= value);
    } else {
        assert(after.len() == 0);
        lemma_first_match(after, no_space());
        assert(trimmed(after) =~= value);
    }
}

/// The lines that are written for the first `n` of `entries`.
pub open spec fn entry_lines(entries: Seq<(Text, Text)>, n: nat) -> Seq<Text> {
    Seq::new(n, |i: int| entry_text(entries[i].0, entries[i].1))
}

/// The text that is written for entries parts into their lines and the
/// empty piece behind the last line break.
proof fn lemma_config_lines_split(entries: Seq<(Text, Text)>, n: nat)
    requires
        n <= entries.len(),
        forall|i: int| 0 <= i < entries.len() ==> plain((#[trigger] entries[i]).0) && plain(
            entries[i].1,
        ),
    ensures
        split_text(config_lines(entries, n), '\n') == entry_lines(entries, n).push(Seq::empty()),
    decreases n,
{
    reveal_strlit(" = ");
    reveal_strlit("\n");
    let empty = Seq::<char>::empty();
    if n == 0 {
        lemma_first_match(config_lines(entries, 0), is_char('\n'));
        assert(entry_lines(entries, 0).push(empty) =~= seq![empty]);
    } else {
        let m = (n - 1) as nat;
        lemma_config_lines_split(entries, m);
        let name = entries[n - 1].0;
        let value = entries[n - 1].1;
        let line = entry_text(name, value);
        let a = config_lines(entries, m);
        let b = line + "\n"@;
        assert(config_lines(entries, n) =~= a + b);
        assert("\n"@.len() == 1 && "\n"@[0] == '\n');
        assert(" = "@.len() == 3 && " = "@[0] == ' ' && " = "@[1] == '=' && " = "@[2] == ' ');
        assert forall|j: int| 0 <= j < line.len() implies b[j] != '\n' by {
            if j < name.len() {
                assert(b[j] == name[j]);
            } else if j < name.len() + 3 {
            } else {
                assert(b[j] == value[j - name.len() - 3]);
            }
        }
        assert(b[line.len() as int] == '\n');
        lemma_first_delim_is(b, '\n', line.len() as int);
        assert(b.take(line.len() as int) =~= line);
        assert(b.skip(line.len() as int + 1) =~= empty);
        lemma_first_match(empty, is_char('\n'));
        assert(split_text(empty, '\n') == seq![empty]);
        assert(split_text(b, '\n') =~= seq![line, empty]);
        lemma_split_joined(a, b, '\n');
        let sa = split_text(a, '\n');
        assert(sa.drop_last() =~= entry_lines(entries, m));
        assert(sa.last() == empty);
        assert(empty + line =~= line);
        assert(seq![line, empty].drop_first() =~= seq![empty]);
        assert(split_text(a + b, '\n') =~= entry_lines(entries, n).push(empty));
    }
}

/// No two entries have one name.
pub open spec fn distinct_names(entries: Seq<(Text, Text)>) -> bool {
    forall|i: int, j: int|
        0 <= i < j < entries.len() ==> (#[trigger] entries[i]).0 != (#[trigger] entries[j]).0
}

proof fn lemma_entries_read_back(entries: Seq<(Text, Text)>, lines: Seq<Text>, k: nat)
    requires
        k <= entries.len(),
        lines.len() >= entries.len(),
        forall|i: int|
            0 <= i < entries.len() ==> #[trigger] lines[i] == entry_text(
                entries[i].0,
                entries[i].1,
            ),
        forall|i: int| 0 <= i < entries.len() ==> plain_name((#[trigger] entries[i]).0) && plain(
            entries[i].1,
        ),
        distinct_names(entries),
    ensures
        entries_read(Seq::empty(), lines, k) == entries.take(k as int),
    decreases k,
{
    if k == 0 {
        assert(entries.take(0) =~= Seq::<(Text, Text)>::empty());
    } else {
        let m = (k - 1) as nat;
        lemma_entries_read_back(entries, lines, m);
        let name = entries[k - 1].0;
        let value = entries[k - 1].1;
        law_config_line_round_trip(name, value);
        let before = entries.take(m as int);
        assert forall|j: int| 0 <= j < before.len() implies (#[trigger] before[j]).0 != name by {
            assert(before[j] == entries[j]);
        }
        crate::metadata::lemma_first_index_is(before, name, before.len() as int);
        assert(with_value(before, name, value) =~= entries.take(k as int));
    }
}

/// What is written of settings is read back as the same settings: entry by
/// entry and in their order, where the names and values are such as a line
/// can hold and no name stands twice.
pub proof fn law_config_text_round_trip(entries: Seq<(Text, Text)>)
    requires
        forall|i: int| 0 <= i < entries.len() ==> plain_name((#[trigger] entries[i]).0) && plain(
            entries[i].1,
        ),
        distinct_names(entries),
    ensures
        entries_read(
            Seq::empty(),
            split_text(config_lines(entries, entries.len()), '\n'),
            split_text(config_lines(entries, entries.len()), '\n').len(),
        ) == entries,
{
    let n = entries.len();
    lemma_config_lines_split(entries, n);
    let lines = split_text(config_lines(entries, n), '\n');
    assert(lines.len() == n + 1);
    assert(lines[n as int] == Seq::<char>::empty());
    lemma_entries_read_back(entries, lines, n);
    lemma_first_match(lines[n as int], no_space());
    assert(trimmed(lines[n as int]).len() == 0);
    assert(config_entry(lines[n as int]) is None);
    assert(entries.take(n as int) =~= entries);
}

} // verus!
