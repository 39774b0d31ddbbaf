use node_core::node_config::{
    ChainstateConfigFile, ChainstateLauncherConfig, ChainstateLauncherConfigFile, StorageBackendConfig,
    StorageBackendConfigFile,
};

#[test]
fn backend_from_str() {
    assert_eq!("lmdb".parse(), Ok(StorageBackendConfigFile::Lmdb));
    assert_eq!("in-memory".parse(), Ok(StorageBackendConfigFile::InMemory));
    assert_eq!("inmemory".parse(), Ok(StorageBackendConfigFile::InMemory));
    assert!("meh".parse::<StorageBackendConfigFile>().is_err());
    assert!("".parse::<StorageBackendConfigFile>().is_err());
}

#[test]
fn backend_names_are_case_sensitive() {
    assert!("LMDB".parse::<StorageBackendConfigFile>().is_err());
    assert!("InMemory".parse::<StorageBackendConfigFile>().is_err());
    assert!("in_memory".parse::<StorageBackendConfigFile>().is_err());
    assert!(" lmdb".parse::<StorageBackendConfigFile>().is_err());
}

#[test]
fn unknown_backend_keeps_the_name() {
    let err = StorageBackendConfigFile::parse("meh").unwrap_err();
    assert_eq!(err.name, "meh");
}

#[test]
fn default_launcher_config_uses_lmdb() {
    let config = ChainstateLauncherConfigFile::new();
    assert_eq!(config.storage_backend, StorageBackendConfigFile::Lmdb);
    assert_eq!(config.chainstate_config, ChainstateConfigFile::default());
    assert_eq!(config, ChainstateLauncherConfigFile::default());
    assert_eq!(StorageBackendConfigFile::default(), StorageBackendConfigFile::Lmdb);
}

#[test]
fn launcher_config_file_converts() {
    let file = ChainstateLauncherConfigFile {
        storage_backend: StorageBackendConfigFile::InMemory,
        chainstate_config: ChainstateConfigFile {
            max_db_commit_attempts: Some(3),
            max_orphan_blocks: None,
            max_tip_age: Some(600),
        },
    };
    let config: ChainstateLauncherConfig = file.into();
    assert_eq!(config.storage_backend, StorageBackendConfig::InMemory);
    assert_eq!(config.chainstate_config.max_db_commit_attempts, Some(3));
    assert_eq!(config.chainstate_config.max_orphan_blocks, None);
    assert_eq!(config.chainstate_config.max_tip_age, Some(600));
    assert_eq!(StorageBackendConfig::from(StorageBackendConfigFile::Lmdb), StorageBackendConfig::Lmdb);
}
