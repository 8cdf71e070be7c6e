//! The composed database handle and the entry points that begin its
//! initialization.

use crate::config::{StoreConfig, StoreConfigView};
use crate::error::InitError;
use crate::metrics::{new_registry, MetricsSink};
use crate::namespace::{descriptor_names, unique_column_families};
use crate::pipeline::{start, Bootstrap, Progress, Request};
use vstd::prelude::*;

verus! {

/// What a logical store is bound to.
#[derive(Debug, PartialEq, Eq)]
pub enum Binding {
    /// The shared engine instance that was opened on this directory.
    Engine(String),
    /// A directory of the store's own.
    Directory(String),
}

/// A binding with its path as a character sequence.
pub enum BindingView {
    Engine(Seq<char>),
    Directory(Seq<char>),
}

impl View for Binding {
    type V = BindingView;

    open spec fn view(&self) -> BindingView {
        match self {
            Binding::Engine(store_dir) => BindingView::Engine(store_dir@),
            Binding::Directory(path) => BindingView::Directory(path@),
        }
    }
}

impl Clone for Binding {
    fn clone(&self) -> (copy: Binding)
        ensures
            copy@ == self@,
    {
        match self {
            Binding::Engine(store_dir) => Binding::Engine(store_dir.clone()),
            Binding::Directory(path) => Binding::Directory(path.clone()),
        }
    }
}

/// The composed database: four bound stores. A handle comes out of a
/// finished initialization and of nothing else, so the two engine stores of
/// every handle share one engine instance and the indexer pair one directory.
#[derive(Debug, PartialEq, Eq)]
pub struct RoochDB {
    moveos_store: Binding,
    rooch_store: Binding,
    indexer_store: Binding,
    indexer_reader: Binding,
}

/// A handle over binding views.
pub struct RoochDBView {
    pub moveos_store: BindingView,
    pub rooch_store: BindingView,
    pub indexer_store: BindingView,
    pub indexer_reader: BindingView,
}

impl View for RoochDB {
    type V = RoochDBView;

    closed spec fn view(&self) -> RoochDBView {
        RoochDBView {
            moveos_store: self.moveos_store@,
            rooch_store: self.rooch_store@,
            indexer_store: self.indexer_store@,
            indexer_reader: self.indexer_reader@,
        }
    }
}

impl RoochDBView {
    /// The state store and the chain store share one engine instance; the
    /// indexer store and its reader share one directory.
    pub open spec fn wf(self) -> bool {
        &&& self.moveos_store is Engine
        &&& self.rooch_store == self.moveos_store
        &&& self.indexer_store is Directory
        &&& self.indexer_reader == self.indexer_store
    }
}

impl Clone for RoochDB {
    fn clone(&self) -> (copy: RoochDB)
        ensures
            copy@ == self@,
    {
        proof {
            use_type_invariant(self);
        }
        RoochDB {
            moveos_store: self.moveos_store.clone(),
            rooch_store: self.rooch_store.clone(),
            indexer_store: self.indexer_store.clone(),
            indexer_reader: self.indexer_reader.clone(),
        }
    }
}

/// The handle that a finished initialization composes: both engine stores on
/// the engine of the store directory, the indexer pair on the indexer's.
pub open spec fn composed<C>(config: StoreConfigView<C>) -> RoochDBView {
    RoochDBView {
        moveos_store: BindingView::Engine(config.store_dir),
        rooch_store: BindingView::Engine(config.store_dir),
        indexer_store: BindingView::Directory(config.indexer_dir),
        indexer_reader: BindingView::Directory(config.indexer_dir),
    }
}

impl RoochDB {
    #[verifier::type_invariant]
    spec fn shares_storage(self) -> bool {
        self@.wf()
    }

    /// The handle over the storage that `config` names.
    pub(crate) fn compose<C>(config: &StoreConfig<C>) -> (db: RoochDB)
        ensures
            db@ == composed(config@),
    {
        RoochDB {
            moveos_store: Binding::Engine(config.get_store_dir()),
            rooch_store: Binding::Engine(config.get_store_dir()),
            indexer_store: Binding::Directory(config.get_indexer_dir()),
            indexer_reader: Binding::Directory(config.get_indexer_dir()),
        }
    }

    /// What the state store is bound to.
    pub fn moveos_store(&self) -> (binding: &Binding)
        ensures
            binding@ == self@.moveos_store,
            self@.wf(),
    {
        proof {
            use_type_invariant(self);
        }
        &self.moveos_store
    }

    /// What the chain store is bound to.
    pub fn rooch_store(&self) -> (binding: &Binding)
        ensures
            binding@ == self@.rooch_store,
            self@.wf(),
    {
        proof {
            use_type_invariant(self);
        }
        &self.rooch_store
    }

    /// What the indexer store is bound to.
    pub fn indexer_store(&self) -> (binding: &Binding)
        ensures
            binding@ == self@.indexer_store,
            self@.wf(),
    {
        proof {
            use_type_invariant(self);
        }
        &self.indexer_store
    }

    /// What the indexer reader is bound to.
    pub fn indexer_reader(&self) -> (binding: &Binding)
        ensures
            binding@ == self@.indexer_reader,
            self@.wf(),
    {
        proof {
            use_type_invariant(self);
        }
        &self.indexer_reader
    }

    /// Begins an initialization that reports to the process-wide sink.
    pub fn init<'a, C, E>(
        config: &'a StoreConfig<C>,
        descriptors: &Vec<Vec<&'a str>>,
    ) -> (progress: Progress<'a, C, E>)
        ensures
            progress@ == start::<C, E>(
                config@,
                descriptor_names(descriptors@),
                MetricsSink::Shared,
            ),
    {
        Self::init_with_metrics(config, descriptors, MetricsSink::Shared)
    }

    /// Begins an initialization: checks that no column family is declared
    /// twice and, if so, asks for the engine to be opened with all of them.
    /// A duplicate fails the initialization before anything is requested.
    pub fn init_with_metrics<'a, C, E>(
        config: &'a StoreConfig<C>,
        descriptors: &Vec<Vec<&'a str>>,
        db_metrics: MetricsSink,
    ) -> (progress: Progress<'a, C, E>)
        ensures
            progress@ == start::<C, E>(config@, descriptor_names(descriptors@), db_metrics),
    {
        match unique_column_families(descriptors) {
            Err(name) => Progress::Failed(InitError::DuplicateColumnFamily(name.to_owned())),
            Ok(column_families) => Progress::Pending(
                Bootstrap::new(config),
                Request::OpenEngine {
                    store_dir: config.get_store_dir(),
                    column_families,
                    rocksdb_config: config.rocksdb_config(),
                    metrics: db_metrics,
                },
            ),
        }
    }

    /// Begins an initialization that reports to a sink of its own, over a
    /// fresh registry.
    pub fn init_with_mock_metrics_for_test<'a, C, E>(
        config: &'a StoreConfig<C>,
        descriptors: &Vec<Vec<&'a str>>,
    ) -> (progress: Progress<'a, C, E>)
        ensures
            progress@.sink() matches Some(sink) ==> sink is Isolated,
            progress@.with_sink(MetricsSink::Shared) == start::<C, E>(
                config@,
                descriptor_names(descriptors@),
                MetricsSink::Shared,
            ),
    {
        let db_registry = new_registry();
        Self::init_with_metrics(config, descriptors, MetricsSink::Isolated(db_registry))
    }

    /// The latest root state, from what the state store holds as its startup
    /// record: absent while nothing was committed, else the record turned
    /// into the root object. A failed read is passed on as it is.
    pub fn latest_root<S, R, E, F: FnOnce(S) -> R>(
        &self,
        startup_info: Result<Option<S>, E>,
        into_root_object: F,
    ) -> (root: Result<Option<R>, E>)
        requires
            startup_info matches Ok(Some(info)) ==> into_root_object.requires((info,)),
        ensures
            match startup_info {
                Err(cause) => root == Err::<Option<R>, E>(cause),
                Ok(None) => root == Ok::<Option<R>, E>(None),
                Ok(Some(info)) => root matches Ok(Some(object)) && into_root_object.ensures(
                    (info,),
                    object,
                ),
            },
    {
        match startup_info {
            Err(cause) => Err(cause),
            Ok(None) => Ok(None),
            Ok(Some(info)) => Ok(Some(into_root_object(info))),
        }
    }
}

} // verus!
