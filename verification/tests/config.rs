use rooch_db::error::duplicate_message;
use rooch_db::StoreConfig;

#[test]
fn config_hands_out_its_directories() {
    let config = StoreConfig::new(
        "/var/lib/rooch/store".to_string(),
        "/var/lib/rooch/indexer".to_string(),
        (256u64, true),
    );
    assert_eq!(config.rocksdb_config(), &(256u64, true));
    assert_eq!(config.rocksdb_config, (256u64, true));
    assert_eq!(config.get_store_dir(), "/var/lib/rooch/store");
    assert_eq!(config.get_indexer_dir(), "/var/lib/rooch/indexer");
    assert_eq!(config.store_dir, "/var/lib/rooch/store");
    assert_eq!(config.indexer_dir, "/var/lib/rooch/indexer");
}

#[test]
fn duplicate_message_names_the_column_family() {
    assert_eq!(duplicate_message("cf_a"), "Duplicate column family: cf_a");
    assert_eq!(duplicate_message(""), "Duplicate column family: ");
}
