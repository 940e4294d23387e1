use vstd::prelude::*;
use crate::metadata::{flag, has_key, value_of, Settings};
use crate::text::{same_text, Text};

verus! {

/// What a dedicated server is started to do.
#[derive(Clone, Copy, Debug, PartialEq, Eq, Structural)]
pub enum ServerAction {
    /// Migrate the map to another backend.
    MigrateMap,
    /// Migrate the players to another backend.
    MigratePlayers,
    /// Migrate the accounts to another backend.
    MigrateAuth,
    /// Migrate the mod storage to another backend.
    MigrateModStorage,
    /// Recompress the blocks of the map.
    Recompress,
    /// Serve the world.
    Serve,
}

/// The action that the options `entries` ask for. Of several, the first in
/// this order is taken: the four migrations, recompression, serving.
pub open spec fn server_action(entries: Seq<(Text, Text)>) -> ServerAction {
    if has_key(entries, "migrate"@) {
        ServerAction::MigrateMap
    } else if has_key(entries, "migrate-players"@) {
        ServerAction::MigratePlayers
    } else if has_key(entries, "migrate-auth"@) {
        ServerAction::MigrateAuth
    } else if has_key(entries, "migrate-mod-storage"@) {
        ServerAction::MigrateModStorage
    } else if flag(entries, "recompress"@) {
        ServerAction::Recompress
    } else {
        ServerAction::Serve
    }
}

/// Decides from the command line's options what the dedicated server does.
pub fn dedicated_server_action(cmd_args: &Settings) -> (action: ServerAction)
    ensures
        action == server_action(cmd_args@),
{
    if cmd_args.contains_key("migrate") {
        ServerAction::MigrateMap
    } else if cmd_args.contains_key("migrate-players") {
        ServerAction::MigratePlayers
    } else if cmd_args.contains_key("migrate-auth") {
        ServerAction::MigrateAuth
    } else if cmd_args.contains_key("migrate-mod-storage") {
        ServerAction::MigrateModStorage
    } else if cmd_args.get_flag("recompress") {
        ServerAction::Recompress
    } else {
        ServerAction::Serve
    }
}

/// What the program does before it sets anything up.
#[derive(Clone, Copy, Debug, PartialEq, Eq, Structural)]
pub enum FirstAction {
    /// Print the help and end with this status.
    PrintHelp(u8),
    /// Print the version and end with success.
    PrintVersion,
    /// Go on with the startup.
    Proceed,
}

/// What the command line asks for first: help where the line was refused
/// (which is a failure), where help was asked for, or where a second
/// nameless argument stands; else the version where that was asked for.
pub open spec fn first_action(cmd_args_ok: bool, entries: Seq<(Text, Text)>) -> FirstAction {
    if !cmd_args_ok || flag(entries, "help"@) || has_key(entries, "nonopt1"@) {
        FirstAction::PrintHelp(
            if cmd_args_ok {
                0
            } else {
                1
            },
        )
    } else if flag(entries, "version"@) {
        FirstAction::PrintVersion
    } else {
        FirstAction::Proceed
    }
}

/// Decides what the program does first, by whether the command line was
/// accepted and what it holds.
pub fn select_first_action(cmd_args_ok: bool, cmd_args: &Settings) -> (action: FirstAction)
    ensures
        action == first_action(cmd_args_ok, cmd_args@),
{
    if !cmd_args_ok || cmd_args.get_flag("help") || cmd_args.contains_key("nonopt1") {
        FirstAction::PrintHelp(
            if cmd_args_ok {
                0
            } else {
                1
            },
        )
    } else if cmd_args.get_flag("version") {
        FirstAction::PrintVersion
    } else {
        FirstAction::Proceed
    }
}

/// A list that the command line asks for in place of a run.
#[derive(Clone, Copy, Debug, PartialEq, Eq, Structural)]
pub enum Listing {
    /// The identifiers of the games there are.
    GameIds,
    /// The worlds there are: their names, their paths or both.
    Worlds { print_name: bool, print_path: bool },
    /// A list of worlds was asked for in a way that is none.
    InvalidWorldlist,
    /// No list was asked for.
    Nothing,
}

/// The list that the options `entries` ask for: the games where the game
/// asked for is `list`; else the worlds where `worldlist` is given.
pub open spec fn listing(entries: Seq<(Text, Text)>) -> Listing {
    if value_of(entries, "gameid"@) == Some("list"@) {
        Listing::GameIds
    } else {
        match value_of(entries, "worldlist"@) {
            None => Listing::Nothing,
            Some(mode) => if mode == "name"@ {
                Listing::Worlds { print_name: true, print_path: false }
            } else if mode == "path"@ {
                Listing::Worlds { print_name: false, print_path: true }
            } else if mode == "both"@ {
                Listing::Worlds { print_name: true, print_path: true }
            } else {
                Listing::InvalidWorldlist
            },
        }
    }
}

/// Decides which list, if any, the command line asks for.
pub fn select_listing(cmd_args: &Settings) -> (list: Listing)
    ensures
        list == listing(cmd_args@),
{
    match cmd_args.get("gameid") {
        Some(id) => {
            if same_text(id.as_str(), "list") {
                return Listing::GameIds;
            }
        },
        None => {},
    }
    match cmd_args.get("worldlist") {
        None => Listing::Nothing,
        Some(mode) => {
            let mode = mode.as_str();
            if same_text(mode, "name") {
                Listing::Worlds { print_name: true, print_path: false }
            } else if same_text(mode, "path") {
                Listing::Worlds { print_name: false, print_path: true }
            } else if same_text(mode, "both") {
                Listing::Worlds { print_name: true, print_path: true }
            } else {
                Listing::InvalidWorldlist
            }
        },
    }
}

} // verus!
