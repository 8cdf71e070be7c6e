//! What the bootstrap reads of the store configuration.

use vstd::prelude::*;

verus! {

/// What the bootstrap reads of a store configuration. `C` is the tuning of
/// the engine, which is handed on to the engine as it is.
#[derive(Debug, PartialEq, Eq)]
pub struct StoreConfig<C> {
    /// Directory of the shared key-value engine.
    pub store_dir: String,
    /// Directory of the indexer, which keeps its own storage format.
    pub indexer_dir: String,
    /// Engine-specific tuning parameters.
    pub rocksdb_config: C,
}

/// A configuration with its paths as character sequences.
pub struct StoreConfigView<C> {
    pub store_dir: Seq<char>,
    pub indexer_dir: Seq<char>,
    pub rocksdb_config: C,
}

impl<C> View for StoreConfig<C> {
    type V = StoreConfigView<C>;

    open spec fn view(&self) -> StoreConfigView<C> {
        StoreConfigView {
            store_dir: self.store_dir@,
            indexer_dir: self.indexer_dir@,
            rocksdb_config: self.rocksdb_config,
        }
    }
}

impl<C> StoreConfig<C> {
    pub fn new(
        store_dir: String,
        indexer_dir: String,
        rocksdb_config: C,
    ) -> (config: StoreConfig<C>)
        ensures
            config@ == (StoreConfigView {
                store_dir: store_dir@,
                indexer_dir: indexer_dir@,
                rocksdb_config,
            }),
    {
        StoreConfig { store_dir, indexer_dir, rocksdb_config }
    }

    pub fn get_store_dir(&self) -> (dir: String)
        ensures
            dir@ == self@.store_dir,
    {
        self.store_dir.clone()
    }

    pub fn get_indexer_dir(&self) -> (dir: String)
        ensures
            dir@ == self@.indexer_dir,
    {
        self.indexer_dir.clone()
    }

    pub fn rocksdb_config(&self) -> (tuning: &C)
        ensures
            *tuning == self@.rocksdb_config,
    {
        &self.rocksdb_config
    }
}

} // verus!
