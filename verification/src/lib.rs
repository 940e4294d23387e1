//! Offline migration and recompression of a voxel world's map.
//!
//! A world keeps its map as blocks in a key/value store. This library copies
//! every block from one store to another, or rewrites every block at the
//! newest serialization version in place, while no server runs on the world.
//! Writes are batched into transactions, a run can be stopped from outside
//! between two blocks, and what a stopped run leaves behind is what its last
//! commit wrote, with no transaction left open. The contracts state all of
//! this over the content of the stores; `laws` holds what follows from them
//! for whole runs. A storage engine on disk stands behind `mirror`.
//!
//! Beside the engine stand the decisions that a server takes when it starts:
//! how it reads its command line and its configuration, which world and
//! which game it picks, and what it prints.

// The engine.
pub mod backend;
pub mod cancel;
pub mod clock;
pub mod codec;
pub mod coord;
pub mod driver;
pub mod error;
pub mod factory;
pub mod job;
pub mod laws;
pub mod memory;
pub mod metadata;
pub mod mirror;
pub mod pipeline;
pub mod progress;
pub mod raw;
pub mod record;
pub mod stamped;
pub mod table;
pub mod transform;
pub mod writer;

// The start of the server.
pub mod cmdline;
pub mod conffile;
pub mod config;
pub mod debugger;
pub mod logsetup;
pub mod options;
pub mod quicktune;
pub mod server;
pub mod startup;
pub mod worlds;

// What both are built on.
pub mod search;
pub mod text;
