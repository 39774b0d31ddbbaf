//! The part of the node's configuration file that says how the chainstate is
//! started: which storage backend it uses and how it is tuned.

use vstd::prelude::*;
use crate::strings::str_equal;

verus! {

/// Storage backend as the configuration file names it.
#[derive(Debug, Clone, Copy, PartialEq, Eq, Structural)]
pub enum StorageBackendConfigFile {
    /// Written `lmdb`.  This is the backend used when the file names none.
    Lmdb,
    /// Written `inmemory` or `in-memory`.
    InMemory,
}

/// Storage backend as the chainstate launcher takes it.
#[derive(Debug, Clone, Copy, PartialEq, Eq, Structural)]
pub enum StorageBackendConfig {
    Lmdb,
    InMemory,
}

/// A name that stands for no storage backend.
#[derive(Debug, Clone, PartialEq, Eq)]
pub struct UnknownStorageBackend {
    /// The name as it was given.
    pub name: String,
}

/// The backend that a name of the configuration file stands for, if any.
pub open spec fn backend_named(name: Seq<char>) -> Option<StorageBackendConfigFile> {
    if name == "lmdb"@ {
        Some(StorageBackendConfigFile::Lmdb)
    } else if name == "inmemory"@ || name == "in-memory"@ {
        Some(StorageBackendConfigFile::InMemory)
    } else {
        None
    }
}

impl StorageBackendConfigFile {
    /// The backend that the launcher is to use.
    pub open spec fn spec_into_backend(&self) -> StorageBackendConfig {
        match self {
            StorageBackendConfigFile::Lmdb => StorageBackendConfig::Lmdb,
            StorageBackendConfigFile::InMemory => StorageBackendConfig::InMemory,
        }
    }

    #[verifier::when_used_as_spec(spec_into_backend)]
    pub fn into_backend(&self) -> (backend: StorageBackendConfig)
        ensures
            backend == self.spec_into_backend(),
    {
        match self {
            StorageBackendConfigFile::Lmdb => StorageBackendConfig::Lmdb,
            StorageBackendConfigFile::InMemory => StorageBackendConfig::InMemory,
        }
    }

    /// Reads the name of a backend.  Names are matched exactly: no other
    /// spelling or case is accepted, nor the empty string.
    pub fn parse(s: &str) -> (result: Result<StorageBackendConfigFile, UnknownStorageBackend>)
        ensures
            match result {
                Ok(backend) => backend_named(s@) == Some(backend),
                Err(err) => backend_named(s@).is_none() && err.name@ == s@,
            },
    {
        if str_equal(s, "lmdb") {
            Ok(StorageBackendConfigFile::Lmdb)
        } else if str_equal(s, "inmemory") || str_equal(s, "in-memory") {
            Ok(StorageBackendConfigFile::InMemory)
        } else {
            Err(UnknownStorageBackend { name: s.to_owned() })
        }
    }
}

impl Default for StorageBackendConfigFile {
    fn default() -> (backend: Self)
        ensures
            backend == StorageBackendConfigFile::Lmdb,
    {
        StorageBackendConfigFile::Lmdb
    }
}

impl core::str::FromStr for StorageBackendConfigFile {
    type Err = UnknownStorageBackend;

    fn from_str(s: &str) -> (result: Result<Self, Self::Err>)
        ensures reads_as(s@, result),
    { StorageBackendConfigFile::parse(s) }
}

/// Tuning of the chainstate as the configuration file gives it.  A value that
/// the file leaves out is `None`; the chainstate then uses its own default.
#[derive(Debug, Clone, Copy, PartialEq, Eq, Structural)]
pub struct ChainstateConfigFile {
    /// How often a failed database commit is tried again.
    pub max_db_commit_attempts: Option<usize>,
    /// How many blocks without a known parent are kept.
    pub max_orphan_blocks: Option<usize>,
    /// Age of the tip, in seconds, beyond which the node counts as still
    /// downloading the chain.
    pub max_tip_age: Option<u64>,
}

/// Tuning of the chainstate as the chainstate takes it.
#[derive(Debug, Clone, Copy, PartialEq, Eq, Structural)]
pub struct ChainstateConfig {
    pub max_db_commit_attempts: Option<usize>,
    pub max_orphan_blocks: Option<usize>,
    pub max_tip_age: Option<u64>,
}

impl ChainstateConfigFile {
    /// The tuning that the chainstate is to use.
    pub open spec fn spec_into_config(&self) -> ChainstateConfig {
        ChainstateConfig {
            max_db_commit_attempts: self.max_db_commit_attempts,
            max_orphan_blocks: self.max_orphan_blocks,
            max_tip_age: self.max_tip_age,
        }
    }

    #[verifier::when_used_as_spec(spec_into_config)]
    pub fn into_config(&self) -> (config: ChainstateConfig)
        ensures
            config == self.spec_into_config(),
    {
        ChainstateConfig {
            max_db_commit_attempts: self.max_db_commit_attempts,
            max_orphan_blocks: self.max_orphan_blocks,
            max_tip_age: self.max_tip_age,
        }
    }
}

impl Default for ChainstateConfigFile {
    fn default() -> (config: Self)
        ensures
            config == (ChainstateConfigFile {
                max_db_commit_attempts: None,
                max_orphan_blocks: None,
                max_tip_age: None,
            }),
    {
        ChainstateConfigFile { max_db_commit_attempts: None, max_orphan_blocks: None, max_tip_age: None }
    }
}

/// How the chainstate is started, as the configuration file gives it.
#[must_use]
#[derive(Debug, Clone, Copy, PartialEq, Eq, Structural)]
pub struct ChainstateLauncherConfigFile {
    /// Storage backend to use.
    pub storage_backend: StorageBackendConfigFile,
    /// Tuning of the chainstate.
    pub chainstate_config: ChainstateConfigFile,
}

/// How the chainstate is started, as the launcher takes it.
#[derive(Debug, Clone, Copy, PartialEq, Eq, Structural)]
pub struct ChainstateLauncherConfig {
    pub storage_backend: StorageBackendConfig,
    pub chainstate_config: ChainstateConfig,
}

impl ChainstateLauncherConfigFile {
    /// What an empty configuration file stands for.
    pub open spec fn spec_new() -> ChainstateLauncherConfigFile {
        ChainstateLauncherConfigFile {
            storage_backend: StorageBackendConfigFile::Lmdb,
            chainstate_config: ChainstateConfigFile {
                max_db_commit_attempts: None,
                max_orphan_blocks: None,
                max_tip_age: None,
            },
        }
    }

    /// The configuration that the launcher is to use.
    pub open spec fn spec_into_launcher_config(&self) -> ChainstateLauncherConfig {
        ChainstateLauncherConfig {
            storage_backend: self.storage_backend.spec_into_backend(),
            chainstate_config: self.chainstate_config.spec_into_config(),
        }
    }

    /// The configuration of an empty file: the default backend and no tuning.
    #[verifier::when_used_as_spec(spec_new)]
    pub fn new() -> (config: Self)
        ensures
            config == Self::spec_new(),
    {
        ChainstateLauncherConfigFile {
            storage_backend: StorageBackendConfigFile::default(),
            chainstate_config: ChainstateConfigFile::default(),
        }
    }

    #[verifier::when_used_as_spec(spec_into_launcher_config)]
    pub fn into_launcher_config(&self) -> (config: ChainstateLauncherConfig)
        ensures
            config == self.spec_into_launcher_config(),
    {
        ChainstateLauncherConfig {
            storage_backend: self.storage_backend.into_backend(),
            chainstate_config: self.chainstate_config.into_config(),
        }
    }
}

impl Default for ChainstateLauncherConfigFile {
    fn default() -> (config: Self)
        ensures
            config == ChainstateLauncherConfigFile::spec_new(),
    {
        ChainstateLauncherConfigFile::new()
    }
}

impl From<StorageBackendConfigFile> for StorageBackendConfig {
    fn from(c: StorageBackendConfigFile) -> (backend: Self) {
        c.into_backend()
    }
}

impl vstd::std_specs::convert::FromSpecImpl<StorageBackendConfigFile> for StorageBackendConfig {
    open spec fn obeys_from_spec() -> bool {
        true
    }

    open spec fn from_spec(c: StorageBackendConfigFile) -> Self {
        c.spec_into_backend()
    }
}

impl From<ChainstateLauncherConfigFile> for ChainstateLauncherConfig {
    fn from(config_file: ChainstateLauncherConfigFile) -> (config: Self) {
        config_file.into_launcher_config()
    }
}

impl vstd::std_specs::convert::FromSpecImpl<ChainstateLauncherConfigFile> for ChainstateLauncherConfig {
    open spec fn obeys_from_spec() -> bool {
        true
    }

    open spec fn from_spec(config_file: ChainstateLauncherConfigFile) -> Self {
        config_file.spec_into_launcher_config()
    }
}

/// Whether `result` is what reading the name `name` gives: the backend that
/// the name stands for, or, where it stands for none, an error that keeps
/// the name.
pub open spec fn reads_as(name: Seq<char>, result: Result<StorageBackendConfigFile, UnknownStorageBackend>) -> bool {
    match result {
        Ok(backend) => backend_named(name) == Some(backend),
        Err(err) => backend_named(name).is_none() && err.name@ == name,
    }
}

} // verus!
