use vstd::prelude::*;
use crate::backend::{Content, StorageBackend};
use crate::error::{ConfigurationError, MigrationError};
use crate::memory::MemoryBackend;
use crate::metadata::WorldMetadata;
use crate::text::{same_text, Text};

verus! {

/// The storage backends that a world's map can be kept in.
#[derive(Clone, Copy, Debug, PartialEq, Eq, Structural)]
pub enum BackendKind {
    Sqlite3,
    Dummy,
}

/// The backend that the identifier `id` names, if it names one.
pub open spec fn kind_named(id: Text) -> Option<BackendKind> {
    if id == "sqlite3"@ {
        Some(BackendKind::Sqlite3)
    } else if id == "dummy"@ {
        Some(BackendKind::Dummy)
    } else {
        None
    }
}

impl BackendKind {
    /// The identifier by which metadata and requests name this backend.
    pub open spec fn spec_identifier(self) -> Text {
        match self {
            BackendKind::Sqlite3 => "sqlite3"@,
            BackendKind::Dummy => "dummy"@,
        }
    }

    /// The identifier by which metadata and requests name this backend.
    pub fn identifier(self) -> (id: &'static str)
        ensures
            id@ == self.spec_identifier(),
    {
        match self {
            BackendKind::Sqlite3 => "sqlite3",
            BackendKind::Dummy => "dummy",
        }
    }

    /// Looks the identifier up among the backends that exist.
    pub fn from_identifier(id: &str) -> (kind: Result<BackendKind, MigrationError>)
        ensures
            kind == match kind_named(id@) {
                Some(k) => Ok::<BackendKind, MigrationError>(k),
                None => Err(MigrationError::Configuration(ConfigurationError::UnknownBackend)),
            },
    {
        if same_text(id, "sqlite3") {
            Ok(BackendKind::Sqlite3)
        } else if same_text(id, "dummy") {
            Ok(BackendKind::Dummy)
        } else {
            Err(MigrationError::Configuration(ConfigurationError::UnknownBackend))
        }
    }
}

/// Each backend is found again under its own identifier.
pub proof fn law_identifier_names_kind(kind: BackendKind)
    ensures
        kind_named(kind.spec_identifier()) == Some(kind),
{
    reveal_strlit("sqlite3");
    reveal_strlit("dummy");
    assert("sqlite3"@.len() != "dummy"@.len());
}

/// Opens the store of the kind `kind` for the world at `location`. Of the
/// backends that can be named, the one in memory is built into this library.
/// Any other needs a storage engine, which a program links and opens behind
/// a `MirroredBackend`: this function cannot open it.
pub fn create_database(kind: BackendKind, location: &str, metadata: &WorldMetadata) -> (handle:
    Result<MemoryBackend, MigrationError>)
    ensures
        match handle {
            Ok(db) => {
                &&& kind == BackendKind::Dummy
                &&& db.wf()
                &&& !db@.in_transaction
                &&& db@.current == Content::empty()
                &&& db@.durable == Content::empty()
            },
            Err(e) => kind != BackendKind::Dummy && e == MigrationError::BackendOpen,
        },
{
    match kind {
        BackendKind::Dummy => MemoryBackend::open(location, metadata),
        BackendKind::Sqlite3 => Err(MigrationError::BackendOpen),
    }
}

/// A migration that may go ahead: from one backend to another.
#[derive(Clone, Copy, Debug, PartialEq, Eq, Structural)]
pub struct MigrationPlan {
    pub from: BackendKind,
    pub to: BackendKind,
}

/// Whether a world with the metadata `entries` can be migrated to the
/// backend named `migrate_to`, and between which backends, or why not. The
/// request for the backend in use is refused before either identifier is
/// looked up.
pub open spec fn migration_plan(entries: Seq<(Text, Text)>, migrate_to: Text) -> Result<
    MigrationPlan,
    MigrationError,
> {
    match crate::metadata::value_of(entries, WorldMetadata::backend_key()) {
        None => Err(MigrationError::Configuration(ConfigurationError::MissingBackend)),
        Some(current) => if current == migrate_to {
            Err(MigrationError::Configuration(ConfigurationError::SameBackend))
        } else {
            match (kind_named(current), kind_named(migrate_to)) {
                (Some(from), Some(to)) => Ok(MigrationPlan { from, to }),
                _ => Err(MigrationError::Configuration(ConfigurationError::UnknownBackend)),
            }
        },
    }
}

/// Decides on a request for migration from the metadata alone, before any
/// store is opened.
pub fn check_migration_request(metadata: &WorldMetadata, migrate_to: &str) -> (plan: Result<
    MigrationPlan,
    MigrationError,
>)
    ensures
        plan == migration_plan(metadata@, migrate_to@),
{
    match metadata.backend() {
        None => Err(MigrationError::Configuration(ConfigurationError::MissingBackend)),
        Some(current) => {
            if same_text(current.as_str(), migrate_to) {
                return Err(MigrationError::Configuration(ConfigurationError::SameBackend));
            }
            let from = BackendKind::from_identifier(current.as_str());
            let to = BackendKind::from_identifier(migrate_to);
            match (from, to) {
                (Ok(from), Ok(to)) => Ok(MigrationPlan { from, to }),
                _ => Err(MigrationError::Configuration(ConfigurationError::UnknownBackend)),
            }
        },
    }
}

/// A request for the backend that the world already uses is refused as a
/// configuration error, whether or not the identifier names a backend.
pub proof fn law_same_backend_refused(entries: Seq<(Text, Text)>, migrate_to: Text)
    requires
        crate::metadata::value_of(entries, WorldMetadata::backend_key()) == Some(migrate_to),
    ensures
        migration_plan(entries, migrate_to) == Err::<MigrationPlan, _>(
            MigrationError::Configuration(ConfigurationError::SameBackend),
        ),
{
}

} // verus!
