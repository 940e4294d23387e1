use vstd::prelude::*;
use crate::text::Text;

verus! {

/// A world that is found on disk: its name and where it lies.
#[derive(Debug)]
pub struct WorldSpec {
    pub name: String,
    pub path: String,
}

impl View for WorldSpec {
    type V = (Text, Text);

    open spec fn view(&self) -> (Text, Text) {
        (self.name@, self.path@)
    }
}

/// The line that lists one world: its name, its path, both or nothing.
pub open spec fn worldspec_line(world: (Text, Text), print_name: bool, print_path: bool) -> Text {
    if print_name && print_path {
        "\t"@ + world.0 + "\t\t"@ + world.1 + "\n"@
    } else if print_name {
        "\t"@ + world.0 + "\n"@
    } else if print_path {
        "\t"@ + world.1 + "\n"@
    } else {
        Seq::empty()
    }
}

/// The lines that list the first `n` of `worlds`.
pub open spec fn worldspec_lines(
    worlds: Seq<(Text, Text)>,
    n: nat,
    print_name: bool,
    print_path: bool,
) -> Text
    decreases n,
{
    if n == 0 {
        Seq::empty()
    } else {
        worldspec_lines(worlds, (n - 1) as nat, print_name, print_path) + worldspec_line(
            worlds[n - 1],
            print_name,
            print_path,
        )
    }
}

/// Writes the list of `worldspecs` to the end of `os`, one line for each.
pub fn print_worldspecs(
    worldspecs: &Vec<WorldSpec>,
    os: &mut String,
    print_name: bool,
    print_path: bool,
)
    ensures
        final(os)@ == old(os)@ + worldspec_lines(
            worldspecs@.map_values(|w: WorldSpec| w@),
            worldspecs@.len(),
            print_name,
            print_path,
        ),
{
    let ghost worlds = worldspecs@.map_values(|w: WorldSpec| w@);
    let mut i: usize = 0;
    proof {
        assert(os@ =~= old(os)@ + worldspec_lines(worlds, 0, print_name, print_path));
    }
    while i < worldspecs.len()
        invariant
            i <= worldspecs.len(),
            worlds == worldspecs@.map_values(|w: WorldSpec| w@),
            os@ == old(os)@ + worldspec_lines(worlds, i as nat, print_name, print_path),
        decreases worldspecs.len() - i,
    {
        let ghost before = os@;
        let world = &worldspecs[i];
        assert(worlds[i as int] == world@);
        if print_name && print_path {
            os.append("\t");
            os.append(world.name.as_str());
            os.append("\t\t");
            os.append(world.path.as_str());
            os.append("\n");
        } else if print_name {
            os.append("\t");
            os.append(world.name.as_str());
            os.append("\n");
        } else if print_path {
            os.append("\t");
            os.append(world.path.as_str());
            os.append("\n");
        }
        proof {
            assert(os@ =~= before + worldspec_line(world@, print_name, print_path));
            assert(os@ =~= old(os)@ + worldspec_lines(
                worlds,
                (i + 1) as nat,
                print_name,
                print_path,
            ));
        }
        i += 1;
    }
}

} // verus!
