use vstd::prelude::*;
use crate::metadata::{
    first_index, get_or_empty, lemma_first_index_is, text_of, value_of, Settings,
};
use crate::conffile::{trim, trimmed};
use crate::text::{leading_number, leading_value, same_text, texts, Text};
use crate::worlds::WorldSpec;

verus! {

/// The port that a server listens on where none is asked for.
pub const DEFAULT_SERVER_PORT: u16 = 30000;

/// A game that a world can be played with.
#[derive(Debug)]
pub struct SubgameSpec {
    pub id: String,
    pub gamemods_path: String,
}

impl SubgameSpec {
    /// The spec that names no game.
    pub fn none() -> (spec: Self)
        ensures
            !spec.is_valid(),
            spec.id@ == Seq::<char>::empty(),
            spec.gamemods_path@ == Seq::<char>::empty(),
    {
        SubgameSpec { id: String::new(), gamemods_path: String::new() }
    }

    /// Whether the spec names a game that was found: whether it has an
    /// identifier and a place where the game lies.
    pub open spec fn spec_is_valid(&self) -> bool {
        self.id@.len() > 0 && self.gamemods_path@.len() > 0
    }

    /// Whether the spec names a game that was found.
    #[verifier::when_used_as_spec(spec_is_valid)]
    pub fn is_valid(&self) -> (valid: bool)
        ensures
            valid == self.spec_is_valid(),
    {
        !self.id.as_str().is_empty() && !self.gamemods_path.as_str().is_empty()
    }

    /// A spec of its own with the same texts.
    pub fn duplicate(&self) -> (spec: Self)
        ensures
            spec.id@ == self.id@,
            spec.gamemods_path@ == self.gamemods_path@,
    {
        SubgameSpec { id: self.id.clone(), gamemods_path: self.gamemods_path.clone() }
    }
}

/// What a game is started with.
#[derive(Debug)]
pub struct GameParams {
    pub socket_port: u16,
    pub world_path: String,
    pub game_spec: SubgameSpec,
    pub is_dedicated_server: bool,
}

/// The port that the text under `key` names: the number that it begins
/// with, white space apart, and the greatest port for any greater number.
/// Text that begins with no number, or none at all, names the port zero.
pub open spec fn port_setting(entries: Seq<(Text, Text)>, key: Text) -> u16 {
    let v = leading_value(trimmed(text_of(entries, key)));
    if v < 0xffff {
        v as u16
    } else {
        0xffff
    }
}

/// Reads the port under `key`.
pub fn get_port(settings: &Settings, key: &str) -> (port: u16)
    ensures
        port == port_setting(settings@, key@),
{
    let text = get_or_empty(settings, key);
    let number = leading_number(trim(text.as_str()), 0xffff);
    number as u16
}

/// The port to use: the one the command line gives, else the one the
/// configuration has for this kind of game; the default where that is zero.
pub open spec fn configured_port(
    is_dedicated_server: bool,
    cmd_args: Seq<(Text, Text)>,
    g_settings: Seq<(Text, Text)>,
) -> u16 {
    let chosen = if value_of(cmd_args, "port"@) is Some {
        port_setting(cmd_args, "port"@)
    } else if is_dedicated_server {
        port_setting(g_settings, "port"@)
    } else {
        port_setting(g_settings, "remote_port"@)
    };
    if chosen == 0 {
        DEFAULT_SERVER_PORT
    } else {
        chosen
    }
}

/// Sets the port of `game_params` from the command line and the
/// configuration.
pub fn game_configure_port(game_params: &mut GameParams, cmd_args: &Settings, g_settings: &Settings)
    ensures
        final(game_params).socket_port == configured_port(
            old(game_params).is_dedicated_server,
            cmd_args@,
            g_settings@,
        ),
        final(game_params).world_path == old(game_params).world_path,
        final(game_params).game_spec == old(game_params).game_spec,
        final(game_params).is_dedicated_server == old(game_params).is_dedicated_server,
{
    let chosen = if cmd_args.contains_key("port") {
        get_port(cmd_args, "port")
    } else if game_params.is_dedicated_server {
        get_port(g_settings, "port")
    } else {
        get_port(g_settings, "remote_port")
    };
    game_params.socket_port = if chosen == 0 {
        DEFAULT_SERVER_PORT
    } else {
        chosen
    };
}

/// Whether `path` names a world's metadata file rather than its directory:
/// whether it ends in `world.mt` and is longer than that.
pub open spec fn names_world_mt(path: Text) -> bool {
    path.len() > "world.mt"@.len() && path.skip(path.len() - "world.mt"@.len()) == "world.mt"@
}

/// The world path as it is used, and whether it names the metadata file of a
/// world. The path is used as it was given in either case.
pub fn get_clean_world_path(path: &str) -> (clean: (String, bool))
    ensures
        clean.0@ == path@,
        clean.1 == names_world_mt(path@),
{
    let n = path.unicode_len();
    let suffix = "world.mt";
    let m = suffix.unicode_len();
    let mut supplied_file = false;
    if n > m {
        let tail = path.substring_char(n - m, n);
        proof {
            assert(tail@ =~= path@.skip(path@.len() - suffix@.len()));
        }
        supplied_file = same_text(tail, suffix);
    }
    (String::from_str(path), supplied_file)
}

/// The world that the command line asks for by path: under `world`, else
/// under `map-dir`, else the first nameless argument; empty where none is.
pub open spec fn commanded_world_path(entries: Seq<(Text, Text)>) -> Text {
    if value_of(entries, "world"@) is Some {
        text_of(entries, "world"@)
    } else if value_of(entries, "map-dir"@) is Some {
        text_of(entries, "map-dir"@)
    } else {
        text_of(entries, "nonopt0"@)
    }
}

/// The world that the command line asks for: by name among `worlds` where a
/// name is given, else by path. There is none where the name is not that of
/// a world.
pub open spec fn world_from_cmdline(entries: Seq<(Text, Text)>, worlds: Seq<(Text, Text)>)
    -> Option<Text> {
    let name = text_of(entries, "worldname"@);
    if name.len() > 0 {
        let i = first_index(worlds, name);
        if i < worlds.len() {
            Some(worlds[i].1)
        } else {
            None
        }
    } else {
        Some(commanded_world_path(entries))
    }
}

/// Takes the world from the command line. Tells whether it names one; where
/// a world's name was given that none of `worldspecs` has, the path stays as
/// it was. The caller lists the worlds there are.
pub fn get_world_from_cmdline(
    game_params: &mut GameParams,
    cmd_args: &Settings,
    worldspecs: &Vec<WorldSpec>,
) -> (found: bool)
    ensures
        match world_from_cmdline(cmd_args@, worldspecs@.map_values(|w: WorldSpec| w@)) {
            Some(path) => final(game_params).world_path@ == path && found == (path.len() > 0),
            None => final(game_params).world_path == old(game_params).world_path && !found,
        },
        final(game_params).socket_port == old(game_params).socket_port,
        final(game_params).game_spec == old(game_params).game_spec,
        final(game_params).is_dedicated_server == old(game_params).is_dedicated_server,
{
    let ghost worlds = worldspecs@.map_values(|w: WorldSpec| w@);
    let commanded_worldname = get_or_empty(cmd_args, "worldname");
    if !commanded_worldname.as_str().is_empty() {
        let mut i: usize = 0;
        while i < worldspecs.len()
            invariant
                i <= worldspecs.len(),
                worlds == worldspecs@.map_values(|w: WorldSpec| w@),
                forall|j: int| 0 <= j < i ==> (#[trigger] worlds[j]).0 != commanded_worldname@,
                *game_params == *old(game_params),
                commanded_worldname@ == text_of(cmd_args@, "worldname"@),
                commanded_worldname@.len() > 0,
            decreases worldspecs.len() - i,
        {
            if same_text(worldspecs[i].name.as_str(), commanded_worldname.as_str()) {
                proof {
                    assert(worlds[i as int] == worldspecs@[i as int]@);
                    lemma_first_index_is(worlds, commanded_worldname@, i as int);
                }
                let (clean, _) = get_clean_world_path(worldspecs[i].path.as_str());
                let found = !clean.as_str().is_empty();
                game_params.world_path = clean;
                return found;
            }
            proof {
                assert(worlds[i as int] == worldspecs@[i as int]@);
            }
            i += 1;
        }
        proof {
            lemma_first_index_is(worlds, commanded_worldname@, i as int);
        }
        return false;
    }
    let commanded_world = if cmd_args.contains_key("world") {
        get_or_empty(cmd_args, "world")
    } else if cmd_args.contains_key("map-dir") {
        get_or_empty(cmd_args, "map-dir")
    } else {
        get_or_empty(cmd_args, "nonopt0")
    };
    let (clean, _) = get_clean_world_path(commanded_world.as_str());
    let found = !clean.as_str().is_empty();
    game_params.world_path = clean;
    found
}

/// Takes the world from the configuration's `map-dir`. Tells whether there
/// is one.
pub fn get_world_from_config(game_params: &mut GameParams, g_settings: &Settings) -> (found: bool)
    ensures
        final(game_params).world_path@ == text_of(g_settings@, "map-dir"@),
        found == (text_of(g_settings@, "map-dir"@).len() > 0),
        final(game_params).socket_port == old(game_params).socket_port,
        final(game_params).game_spec == old(game_params).game_spec,
        final(game_params).is_dedicated_server == old(game_params).is_dedicated_server,
{
    let commanded_world = get_or_empty(g_settings, "map-dir");
    let (clean, _) = get_clean_world_path(commanded_world.as_str());
    let found = !clean.as_str().is_empty();
    game_params.world_path = clean;
    found
}

/// The world that is taken where none was asked for: the only world there
/// is; the default world below `path_user` where there is none, or where
/// there are several and the game is no dedicated server. A dedicated server
/// does not pick among several.
pub open spec fn auto_selected_world(
    is_dedicated_server: bool,
    worlds: Seq<(Text, Text)>,
    path_user: Text,
) -> Option<Text> {
    if worlds.len() == 1 {
        Some(worlds[0].1)
    } else if worlds.len() > 1 && is_dedicated_server {
        None
    } else {
        Some(path_user + "/"@ + "worlds"@ + "/"@ + "world"@)
    }
}

/// Picks a world where none was asked for. Tells whether it picked one; the
/// path stays as it was where it did not. The caller lists the worlds there
/// are and names the user's data directory.
pub fn auto_select_world(game_params: &mut GameParams, worldspecs: &Vec<WorldSpec>, path_user: &str)
    -> (picked: bool)
    ensures
        match auto_selected_world(
            old(game_params).is_dedicated_server,
            worldspecs@.map_values(|w: WorldSpec| w@),
            path_user@,
        ) {
            Some(path) => final(game_params).world_path@ == path && picked,
            None => final(game_params).world_path == old(game_params).world_path && !picked,
        },
        final(game_params).socket_port == old(game_params).socket_port,
        final(game_params).game_spec == old(game_params).game_spec,
        final(game_params).is_dedicated_server == old(game_params).is_dedicated_server,
{
    if worldspecs.len() == 1 {
        assert(worldspecs@.map_values(|w: WorldSpec| w@)[0] == worldspecs@[0]@);
        game_params.world_path = worldspecs[0].path.clone();
        true
    } else if worldspecs.len() > 1 && game_params.is_dedicated_server {
        false
    } else {
        let mut world_path = String::from_str(path_user);
        world_path.append("/");
        world_path.append("worlds");
        world_path.append("/");
        world_path.append("world");
        game_params.world_path = world_path;
        true
    }
}

/// The world that a game runs on: the one the command line asks for; else
/// the one the configuration names; else the one that is picked where none
/// was asked for. There is none where a dedicated server would have to pick
/// among several.
pub open spec fn configured_world(
    is_dedicated_server: bool,
    cmd_args: Seq<(Text, Text)>,
    g_settings: Seq<(Text, Text)>,
    worlds: Seq<(Text, Text)>,
    path_user: Text,
) -> Option<Text> {
    let commanded = world_from_cmdline(cmd_args, worlds);
    if commanded is Some && commanded->Some_0.len() > 0 {
        commanded
    } else if text_of(g_settings, "map-dir"@).len() > 0 {
        Some(text_of(g_settings, "map-dir"@))
    } else {
        auto_selected_world(is_dedicated_server, worlds, path_user)
    }
}

/// Settles the world of `game_params`: from the command line, else from the
/// configuration, else by picking one. Tells whether a world was settled;
/// where none was, the path is empty. The caller lists the worlds there are
/// and names the user's data directory.
pub fn game_configure_world(
    game_params: &mut GameParams,
    cmd_args: &Settings,
    g_settings: &Settings,
    worldspecs: &Vec<WorldSpec>,
    path_user: &str,
) -> (settled: bool)
    ensures
        match configured_world(
            old(game_params).is_dedicated_server,
            cmd_args@,
            g_settings@,
            worldspecs@.map_values(|w: WorldSpec| w@),
            path_user@,
        ) {
            Some(path) => final(game_params).world_path@ == path && settled,
            None => final(game_params).world_path@.len() == 0 && !settled,
        },
        final(game_params).socket_port == old(game_params).socket_port,
        final(game_params).game_spec == old(game_params).game_spec,
        final(game_params).is_dedicated_server == old(game_params).is_dedicated_server,
{
    if get_world_from_cmdline(game_params, cmd_args, worldspecs) {
        return true;
    }
    if get_world_from_config(game_params, g_settings) {
        return true;
    }
    auto_select_world(game_params, worldspecs, path_user)
}

/// Takes the game that the command line asked for, where it asked for one
/// and the game was found. The caller looks the game up.
pub fn get_game_from_cmdline(game_params: &mut GameParams, commanded_gamespec: Option<SubgameSpec>)
    -> (taken: bool)
    ensures
        taken == (commanded_gamespec is Some && commanded_gamespec->Some_0.is_valid()),
        final(game_params).game_spec == if taken {
            commanded_gamespec->Some_0
        } else {
            old(game_params).game_spec
        },
        final(game_params).socket_port == old(game_params).socket_port,
        final(game_params).world_path == old(game_params).world_path,
        final(game_params).is_dedicated_server == old(game_params).is_dedicated_server,
{
    match commanded_gamespec {
        Some(spec) => {
            if spec.is_valid() {
                game_params.game_spec = spec;
                true
            } else {
                false
            }
        },
        None => false,
    }
}

/// Settles the game of a world whose path is known: the game that was asked
/// for where one was; else, for a world that exists, the game of the world.
/// Tells whether a game was settled; the game stays as it was where none
/// was. The caller finds out whether the world exists and which game it has.
pub fn determine_subgame(
    game_params: &mut GameParams,
    world_exists: bool,
    world_gamespec: SubgameSpec,
) -> (settled: bool)
    requires
        old(game_params).world_path@.len() > 0,
    ensures
        settled == (old(game_params).game_spec.is_valid() || (world_exists
            && world_gamespec.is_valid())),
        final(game_params).game_spec == if !old(game_params).game_spec.is_valid() && settled {
            world_gamespec
        } else {
            old(game_params).game_spec
        },
        final(game_params).socket_port == old(game_params).socket_port,
        final(game_params).world_path == old(game_params).world_path,
        final(game_params).is_dedicated_server == old(game_params).is_dedicated_server,
{
    if game_params.game_spec.is_valid() {
        true
    } else if world_exists && world_gamespec.is_valid() {
        game_params.game_spec = world_gamespec;
        true
    } else {
        false
    }
}

/// Settles the game of `game_params`: the one the command line asked for,
/// where it was found; else the one that `determine_subgame` settles, for
/// which the world's path must be known. The caller looks up the game that
/// was asked for, and finds out whether the world exists and which game it
/// has.
pub fn game_configure_subgame(
    game_params: &mut GameParams,
    commanded_gamespec: Option<SubgameSpec>,
    world_exists: bool,
    world_gamespec: SubgameSpec,
) -> (settled: bool)
    requires
        !(commanded_gamespec is Some && commanded_gamespec->Some_0.is_valid()) ==> old(
            game_params,
        ).world_path@.len() > 0,
    ensures
        settled == ((commanded_gamespec is Some && commanded_gamespec->Some_0.is_valid()) || old(
            game_params,
        ).game_spec.is_valid() || (world_exists && world_gamespec.is_valid())),
        final(game_params).game_spec == if commanded_gamespec is Some
            && commanded_gamespec->Some_0.is_valid() {
            commanded_gamespec->Some_0
        } else if !old(game_params).game_spec.is_valid() && settled {
            world_gamespec
        } else {
            old(game_params).game_spec
        },
        final(game_params).socket_port == old(game_params).socket_port,
        final(game_params).world_path == old(game_params).world_path,
        final(game_params).is_dedicated_server == old(game_params).is_dedicated_server,
{
    if get_game_from_cmdline(game_params, commanded_gamespec) {
        true
    } else {
        determine_subgame(game_params, world_exists, world_gamespec)
    }
}

/// Where the configuration is read from.
#[derive(Debug)]
pub struct ConfigSearch {
    /// The file was asked for: it must be there.
    pub required: bool,
    /// The files to try, in this order. The first that can be read is the
    /// configuration; where none can, the first is where it will be written.
    pub candidates: Vec<String>,
}

/// The files in which the configuration is looked for below `path_user`.
pub open spec fn default_config_files(path_user: Text) -> Seq<Text> {
    seq![
        path_user + "/"@ + "minetest.conf"@,
        path_user + "/"@ + ".."@ + "/"@ + "minetest.conf"@,
        path_user + "/"@ + ".."@ + "/"@ + ".."@ + "/"@ + "minetest.conf"@,
    ]
}

/// Says where the configuration is read from: the file that the command line
/// names, which must then be there, or else the usual places below the
/// user's data directory. The caller reads the files.
pub fn read_config_file(cmd_args: &Settings, path_user: &str) -> (search: ConfigSearch)
    ensures
        search.required == (value_of(cmd_args@, "config"@) is Some),
        texts(search.candidates@) == match value_of(cmd_args@, "config"@) {
            Some(file) => seq![file],
            None => default_config_files(path_user@),
        },
{
    let mut candidates: Vec<String> = Vec::new();
    match cmd_args.get("config") {
        Some(file) => {
            candidates.push(file);
            proof {
                assert(texts(candidates@) =~= seq![file@]);
            }
            ConfigSearch { required: true, candidates }
        },
        None => {
            let mut first = String::from_str(path_user);
            first.append("/");
            first.append("minetest.conf");
            let mut second = String::from_str(path_user);
            second.append("/");
            second.append("..");
            second.append("/");
            second.append("minetest.conf");
            let mut third = String::from_str(path_user);
            third.append("/");
            third.append("..");
            third.append("/");
            third.append("..");
            third.append("/");
            third.append("minetest.conf");
            let ghost a = first@;
            let ghost b = second@;
            let ghost c = third@;
            candidates.push(first);
            candidates.push(second);
            candidates.push(third);
            proof {
                assert(texts(candidates@) =~= seq![a, b, c]);
            }
            ConfigSearch { required: false, candidates }
        },
    }
}

} // verus!
