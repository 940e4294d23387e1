use vstd::prelude::*;
use crate::text::Text;

verus! {

/// A value that can be tuned while the program runs, as text, and whether it
/// was changed.
#[derive(Debug)]
pub struct QuicktuneValue {
    pub text: String,
    pub modified: bool,
}

/// A tunable value under its name.
#[derive(Debug)]
pub struct QuicktuneEntry {
    pub name: String,
    pub value: QuicktuneValue,
}

impl View for QuicktuneEntry {
    type V = (Text, Text, bool);

    open spec fn view(&self) -> (Text, Text, bool) {
        (self.name@, self.value.text@, self.value.modified)
    }
}

/// Whether one of the first `n` values was changed.
pub open spec fn any_modified(values: Seq<(Text, Text, bool)>, n: nat) -> bool
    decreases n,
{
    if n == 0 {
        false
    } else {
        any_modified(values, (n - 1) as nat) || values[n - 1].2
    }
}

/// A line for each of the first `n` values that was changed.
pub open spec fn modified_lines(values: Seq<(Text, Text, bool)>, n: nat) -> Text
    decreases n,
{
    if n == 0 {
        Seq::empty()
    } else if values[n - 1].2 {
        modified_lines(values, (n - 1) as nat) + values[n - 1].0 + " = "@ + values[n - 1].1 + "\n"@
    } else {
        modified_lines(values, (n - 1) as nat)
    }
}

/// What is printed of `values`: nothing where none was changed, else a
/// heading and the lines of those that were.
pub open spec fn modified_quicktune_text(values: Seq<(Text, Text, bool)>) -> Text {
    if any_modified(values, values.len()) {
        "Modified quicktune values:\n"@ + modified_lines(values, values.len())
    } else {
        Seq::empty()
    }
}

/// Writes to the end of `os` the tunable values that were changed, under one
/// heading. The caller collects `values` from where they are registered.
pub fn print_modified_quicktune_values(values: &Vec<QuicktuneEntry>, os: &mut String)
    ensures
        final(os)@ == old(os)@ + modified_quicktune_text(
            values@.map_values(|e: QuicktuneEntry| e@),
        ),
{
    let ghost all = values@.map_values(|e: QuicktuneEntry| e@);
    let mut header_printed = false;
    let mut i: usize = 0;
    proof {
        assert(os@ =~= old(os)@ + Seq::<char>::empty());
    }
    while i < values.len()
        invariant
            i <= values.len(),
            all == values@.map_values(|e: QuicktuneEntry| e@),
            header_printed == any_modified(all, i as nat),
            os@ == old(os)@ + if header_printed {
                "Modified quicktune values:\n"@ + modified_lines(all, i as nat)
            } else {
                Seq::<char>::empty()
            },
            !header_printed ==> modified_lines(all, i as nat) == Seq::<char>::empty(),
        decreases values.len() - i,
    {
        let entry = &values[i];
        assert(all[i as int] == entry@);
        if entry.value.modified {
            if !header_printed {
                os.append("Modified quicktune values:\n");
                header_printed = true;
            }
            os.append(entry.name.as_str());
            os.append(" = ");
            os.append(entry.value.text.as_str());
            os.append("\n");
            proof {
                assert(os@ =~= old(os)@ + ("Modified quicktune values:\n"@ + modified_lines(
                    all,
                    (i + 1) as nat,
                )));
            }
        }
        i += 1;
    }
}

} // verus!
