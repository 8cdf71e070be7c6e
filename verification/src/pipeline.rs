//! The initialization pipeline as a state machine.
//!
//! The pipeline issues one request at a time: open the engine, bind the two
//! stores that live on it, open the indexer store, open the indexer reader.
//! The caller performs the request and reports its outcome; the pipeline
//! answers with the next request, with the composed handle, or with the error
//! that ended the initialization.

use crate::config::{StoreConfig, StoreConfigView};
use crate::db::{composed, RoochDB, RoochDBView};
use crate::error::{InitError, InitErrorView, StoreKind};
use crate::metrics::MetricsSink;
use crate::namespace::{
    first_duplicate, lemma_first_duplicate_none_iff_unique, lemma_shared_name_is_duplicate, names,
};
use vstd::prelude::*;

verus! {

/// The step whose outcome the pipeline is waiting for.
#[derive(Clone, Copy, Debug, PartialEq, Eq, Structural)]
pub enum Stage {
    EngineOpen,
    MoveosStoreBind,
    RoochStoreBind,
    IndexerStoreOpen,
    IndexerReaderOpen,
}

/// Work that only the caller can do.
#[derive(Debug)]
pub enum Request<'a, C> {
    /// Open the one engine instance on `store_dir` with these column families
    /// and this tuning, reporting to `metrics`.
    OpenEngine {
        store_dir: String,
        column_families: Vec<&'a str>,
        rocksdb_config: &'a C,
        metrics: MetricsSink,
    },
    /// Bind the state store to the engine instance that was opened.
    BindMoveosStore,
    /// Bind the chain store to that same engine instance.
    BindRoochStore,
    /// Open the indexer store on its own directory.
    OpenIndexerStore { indexer_dir: String },
    /// Open the indexer reader on the indexer's directory.
    OpenIndexerReader { indexer_dir: String },
}

/// A request with its paths and names as character sequences.
pub enum RequestView<C> {
    OpenEngine {
        store_dir: Seq<char>,
        column_families: Seq<Seq<char>>,
        rocksdb_config: C,
        metrics: MetricsSink,
    },
    BindMoveosStore,
    BindRoochStore,
    OpenIndexerStore { indexer_dir: Seq<char> },
    OpenIndexerReader { indexer_dir: Seq<char> },
}

impl<'a, C> View for Request<'a, C> {
    type V = RequestView<C>;

    open spec fn view(&self) -> RequestView<C> {
        match self {
            Request::OpenEngine {
                store_dir,
                column_families,
                rocksdb_config,
                metrics,
            } => RequestView::OpenEngine {
                store_dir: store_dir@,
                column_families: names(column_families@),
                rocksdb_config: **rocksdb_config,
                metrics: *metrics,
            },
            Request::BindMoveosStore => RequestView::BindMoveosStore,
            Request::BindRoochStore => RequestView::BindRoochStore,
            Request::OpenIndexerStore { indexer_dir } => RequestView::OpenIndexerStore {
                indexer_dir: indexer_dir@,
            },
            Request::OpenIndexerReader { indexer_dir } => RequestView::OpenIndexerReader {
                indexer_dir: indexer_dir@,
            },
        }
    }
}

/// An initialization under way: the stage it waits on and the configuration
/// it composes.
#[derive(Debug)]
pub struct Bootstrap<'a, C> {
    stage: Stage,
    config: &'a StoreConfig<C>,
}

/// An initialization under way, over the view of its configuration.
pub struct BootstrapView<C> {
    pub stage: Stage,
    pub config: StoreConfigView<C>,
}

impl<'a, C> View for Bootstrap<'a, C> {
    type V = BootstrapView<C>;

    closed spec fn view(&self) -> BootstrapView<C> {
        BootstrapView { stage: self.stage, config: self.config@ }
    }
}

/// Where an initialization stands after a step.
#[derive(Debug)]
pub enum Progress<'a, C, E> {
    /// The request is to be performed and its outcome reported to `step`.
    Pending(Bootstrap<'a, C>, Request<'a, C>),
    /// Every step succeeded: the composed handle.
    Ready(RoochDB),
    /// The initialization is over; nothing further is requested.
    Failed(InitError<E>),
}

/// A progress over views.
pub enum ProgressView<C, E> {
    Pending(BootstrapView<C>, RequestView<C>),
    Ready(RoochDBView),
    Failed(InitErrorView<E>),
}

impl<'a, C, E> View for Progress<'a, C, E> {
    type V = ProgressView<C, E>;

    open spec fn view(&self) -> ProgressView<C, E> {
        match self {
            Progress::Pending(machine, request) => ProgressView::Pending(machine@, request@),
            Progress::Ready(db) => ProgressView::Ready(db@),
            Progress::Failed(error) => ProgressView::Failed(error@),
        }
    }
}

impl<C, E> ProgressView<C, E> {
    /// The sink that the engine is asked to report to, where the engine is
    /// asked for.
    pub open spec fn sink(self) -> Option<MetricsSink> {
        match self {
            ProgressView::Pending(_, RequestView::OpenEngine { metrics, .. }) => Some(metrics),
            _ => None,
        }
    }

    /// This progress with `metrics` in place of its sink.
    pub open spec fn with_sink(self, metrics: MetricsSink) -> ProgressView<C, E> {
        match self {
            ProgressView::Pending(
                machine,
                RequestView::OpenEngine { store_dir, column_families, rocksdb_config, .. },
            ) => ProgressView::Pending(
                machine,
                RequestView::OpenEngine { store_dir, column_families, rocksdb_config, metrics },
            ),
            _ => self,
        }
    }
}

/// The error for a step that failed with `cause`.
pub open spec fn failure<E>(stage: Stage, cause: E) -> InitErrorView<E> {
    match stage {
        Stage::EngineOpen => InitErrorView::EngineOpen(cause),
        Stage::MoveosStoreBind => InitErrorView::StoreBind(StoreKind::MoveosStore, cause),
        Stage::RoochStoreBind => InitErrorView::StoreBind(StoreKind::RoochStore, cause),
        Stage::IndexerStoreOpen => InitErrorView::StoreBind(StoreKind::IndexerStore, cause),
        Stage::IndexerReaderOpen => InitErrorView::StoreBind(StoreKind::IndexerReader, cause),
    }
}

/// The first progress of an initialization: a failure if a column family is
/// declared twice, else the request to open the engine with all of them.
pub open spec fn start<C, E>(
    config: StoreConfigView<C>,
    descriptors: Seq<Seq<Seq<char>>>,
    metrics: MetricsSink,
) -> ProgressView<C, E> {
    let column_families = descriptors.flatten();
    match first_duplicate(column_families) {
        Some(name) => ProgressView::Failed(InitErrorView::DuplicateColumnFamily(name)),
        None => ProgressView::Pending(
            BootstrapView { stage: Stage::EngineOpen, config },
            schedule(config, column_families, metrics)[0],
        ),
    }
}

/// The progress after the pending request ended with `outcome`.
pub open spec fn next<C, E>(
    machine: BootstrapView<C>,
    outcome: Result<(), E>,
) -> ProgressView<C, E> {
    let config = machine.config;
    match outcome {
        Err(cause) => ProgressView::Failed(failure(machine.stage, cause)),
        Ok(_) => match machine.stage {
            Stage::EngineOpen => ProgressView::Pending(
                BootstrapView { stage: Stage::MoveosStoreBind, config },
                RequestView::BindMoveosStore,
            ),
            Stage::MoveosStoreBind => ProgressView::Pending(
                BootstrapView { stage: Stage::RoochStoreBind, config },
                RequestView::BindRoochStore,
            ),
            Stage::RoochStoreBind => ProgressView::Pending(
                BootstrapView { stage: Stage::IndexerStoreOpen, config },
                RequestView::OpenIndexerStore { indexer_dir: config.indexer_dir },
            ),
            Stage::IndexerStoreOpen => ProgressView::Pending(
                BootstrapView { stage: Stage::IndexerReaderOpen, config },
                RequestView::OpenIndexerReader { indexer_dir: config.indexer_dir },
            ),
            Stage::IndexerReaderOpen => ProgressView::Ready(composed(config)),
        },
    }
}

impl<'a, C> Bootstrap<'a, C> {
    /// An initialization of `config` that waits for the engine to be opened.
    pub(crate) fn new(config: &'a StoreConfig<C>) -> (machine: Bootstrap<'a, C>)
        ensures
            machine@ == (BootstrapView { stage: Stage::EngineOpen, config: config@ }),
    {
        Bootstrap { stage: Stage::EngineOpen, config }
    }

    /// The step whose outcome is awaited.
    pub fn stage(&self) -> (stage: Stage)
        ensures
            stage == self@.stage,
    {
        self.stage
    }

    /// Takes the outcome of the pending request. A failure ends the
    /// initialization with its cause; a success moves on to the next request
    /// or, after the last one, to the composed handle.
    pub fn step<E>(self, outcome: Result<(), E>) -> (progress: Progress<'a, C, E>)
        ensures
            progress@ == next(self@, outcome),
    {
        let config = self.config;
        match outcome {
            Err(cause) => {
                let error = match self.stage {
                    Stage::EngineOpen => InitError::EngineOpen(cause),
                    Stage::MoveosStoreBind => InitError::StoreBind(StoreKind::MoveosStore, cause),
                    Stage::RoochStoreBind => InitError::StoreBind(StoreKind::RoochStore, cause),
                    Stage::IndexerStoreOpen => InitError::StoreBind(StoreKind::IndexerStore, cause),
                    Stage::IndexerReaderOpen => InitError::StoreBind(
                        StoreKind::IndexerReader,
                        cause,
                    ),
                };
                Progress::Failed(error)
            },
            Ok(_) => match self.stage {
                Stage::EngineOpen => Progress::Pending(
                    Bootstrap { stage: Stage::MoveosStoreBind, config },
                    Request::BindMoveosStore,
                ),
                Stage::MoveosStoreBind => Progress::Pending(
                    Bootstrap { stage: Stage::RoochStoreBind, config },
                    Request::BindRoochStore,
                ),
                Stage::RoochStoreBind => Progress::Pending(
                    Bootstrap { stage: Stage::IndexerStoreOpen, config },
                    Request::OpenIndexerStore { indexer_dir: config.get_indexer_dir() },
                ),
                Stage::IndexerStoreOpen => Progress::Pending(
                    Bootstrap { stage: Stage::IndexerReaderOpen, config },
                    Request::OpenIndexerReader { indexer_dir: config.get_indexer_dir() },
                ),
                Stage::IndexerReaderOpen => Progress::Ready(RoochDB::compose(config)),
            },
        }
    }
}

/// The stage that waits on the outcome number `k`, counted from zero.
pub open spec fn nth_stage(k: int) -> Stage {
    if k <= 0 {
        Stage::EngineOpen
    } else if k == 1 {
        Stage::MoveosStoreBind
    } else if k == 2 {
        Stage::RoochStoreBind
    } else if k == 3 {
        Stage::IndexerStoreOpen
    } else {
        Stage::IndexerReaderOpen
    }
}

/// The five requests of an initialization, in the order they are issued.
pub open spec fn schedule<C>(
    config: StoreConfigView<C>,
    column_families: Seq<Seq<char>>,
    metrics: MetricsSink,
) -> Seq<RequestView<C>> {
    seq![
        RequestView::OpenEngine {
            store_dir: config.store_dir,
            column_families,
            rocksdb_config: config.rocksdb_config,
            metrics,
        },
        RequestView::BindMoveosStore,
        RequestView::BindRoochStore,
        RequestView::OpenIndexerStore { indexer_dir: config.indexer_dir },
        RequestView::OpenIndexerReader { indexer_dir: config.indexer_dir },
    ]
}

/// The progress after the outcomes were reported one by one, each for the
/// request pending at its turn. Once the initialization is over, further
/// outcomes change nothing.
pub open spec fn run<C, E>(
    first: ProgressView<C, E>,
    outcomes: Seq<Result<(), E>>,
) -> ProgressView<C, E>
    decreases outcomes.len(),
{
    if outcomes.len() == 0 {
        first
    } else {
        match run(first, outcomes.drop_last()) {
            ProgressView::Pending(machine, _) => next(machine, outcomes.last()),
            over => over,
        }
    }
}

/// The request that a progress leaves pending, if any.
pub open spec fn pending_request<C, E>(progress: ProgressView<C, E>) -> Seq<RequestView<C>> {
    match progress {
        ProgressView::Pending(_, request) => seq![request],
        _ => Seq::empty(),
    }
}

/// Every request issued in the course of a run, the pending one included.
pub open spec fn requests<C, E>(
    first: ProgressView<C, E>,
    outcomes: Seq<Result<(), E>>,
) -> Seq<RequestView<C>>
    decreases outcomes.len(),
{
    if outcomes.len() == 0 {
        pending_request(first)
    } else {
        let earlier = outcomes.drop_last();
        match run(first, earlier) {
            ProgressView::Pending(_, _) => requests(first, earlier) + pending_request(
                run(first, outcomes),
            ),
            _ => requests(first, earlier),
        }
    }
}

/// A column family declared twice fails the initialization with that name,
/// and nothing is ever requested: the engine is not opened, no store is
/// bound, whatever is reported afterwards.
pub proof fn lemma_duplicate_requests_nothing<C, E>(
    config: StoreConfigView<C>,
    descriptors: Seq<Seq<Seq<char>>>,
    metrics: MetricsSink,
    outcomes: Seq<Result<(), E>>,
)
    requires
        !descriptors.flatten().no_duplicates(),
    ensures
        first_duplicate(descriptors.flatten()) matches Some(name) && start::<C, E>(
            config,
            descriptors,
            metrics,
        ) == ProgressView::<C, E>::Failed(InitErrorView::DuplicateColumnFamily(name)),
        run(start::<C, E>(config, descriptors, metrics), outcomes) == start::<C, E>(
            config,
            descriptors,
            metrics,
        ),
        requests(start::<C, E>(config, descriptors, metrics), outcomes) == Seq::<
            RequestView<C>,
        >::empty(),
    decreases outcomes.len(),
{
    lemma_first_duplicate_none_iff_unique(descriptors.flatten());
    if outcomes.len() > 0 {
        lemma_duplicate_requests_nothing::<C, E>(
            config,
            descriptors,
            metrics,
            outcomes.drop_last(),
        );
    }
}

/// A name that two different stores declare fails the initialization before
/// the engine is asked for.
pub proof fn lemma_shared_name_requests_nothing<C, E>(
    config: StoreConfigView<C>,
    descriptors: Seq<Seq<Seq<char>>>,
    metrics: MetricsSink,
    outcomes: Seq<Result<(), E>>,
    a: int,
    i: int,
    b: int,
    j: int,
)
    requires
        0 <= a < descriptors.len(),
        0 <= b < descriptors.len(),
        a != b,
        0 <= i < descriptors[a].len(),
        0 <= j < descriptors[b].len(),
        descriptors[a][i] == descriptors[b][j],
    ensures
        start::<C, E>(config, descriptors, metrics) matches ProgressView::Failed(
            InitErrorView::DuplicateColumnFamily(_),
        ),
        run(start::<C, E>(config, descriptors, metrics), outcomes) == start::<C, E>(
            config,
            descriptors,
            metrics,
        ),
        requests(start::<C, E>(config, descriptors, metrics), outcomes) == Seq::<
            RequestView<C>,
        >::empty(),
{
    lemma_shared_name_is_duplicate(descriptors, a, i, b, j);
    lemma_duplicate_requests_nothing::<C, E>(config, descriptors, metrics, outcomes);
}

/// With every column family declared once, and as long as every request
/// succeeds, the requests are issued in the order of the schedule, one per
/// outcome; after the fifth success the handle is composed.
pub proof fn lemma_successes_follow_schedule<C, E>(
    config: StoreConfigView<C>,
    descriptors: Seq<Seq<Seq<char>>>,
    metrics: MetricsSink,
    outcomes: Seq<Result<(), E>>,
)
    requires
        descriptors.flatten().no_duplicates(),
        outcomes.len() <= 5,
        forall|k: int| 0 <= k < outcomes.len() ==> outcomes[k] is Ok,
    ensures
        outcomes.len() < 5 ==> run(start::<C, E>(config, descriptors, metrics), outcomes)
            == ProgressView::<C, E>::Pending(
            BootstrapView { stage: nth_stage(outcomes.len() as int), config },
            schedule(config, descriptors.flatten(), metrics)[outcomes.len() as int],
        ),
        outcomes.len() == 5 ==> run(start::<C, E>(config, descriptors, metrics), outcomes)
            == ProgressView::<C, E>::Ready(composed(config)),
        composed(config).wf(),
        requests(start::<C, E>(config, descriptors, metrics), outcomes) == schedule(
            config,
            descriptors.flatten(),
            metrics,
        ).take(
            if outcomes.len() < 5 {
                outcomes.len() as int + 1
            } else {
                5
            },
        ),
    decreases outcomes.len(),
{
    let plan = schedule(config, descriptors.flatten(), metrics);
    let first = start::<C, E>(config, descriptors, metrics);
    lemma_first_duplicate_none_iff_unique(descriptors.flatten());
    if outcomes.len() == 0 {
        assert(requests(first, outcomes) =~= plan.take(1));
    } else {
        lemma_successes_follow_schedule::<C, E>(
            config,
            descriptors,
            metrics,
            outcomes.drop_last(),
        );
        let n = outcomes.len() as int;
        assert(outcomes.last() is Ok);
        assert(plan.take(n) =~= plan.take(n - 1).push(plan[n - 1]));
        if n < 5 {
            assert(plan.take(n + 1) =~= plan.take(n).push(plan[n]));
            assert(requests(first, outcomes) =~= plan.take(n + 1));
        } else {
            assert(requests(first, outcomes) =~= plan.take(5));
        }
    }
}

/// The first request that fails ends the initialization with its cause, at
/// the stage that waited on it. No request follows, whatever is reported
/// afterwards.
pub proof fn lemma_failure_ends_initialization<C, E>(
    config: StoreConfigView<C>,
    descriptors: Seq<Seq<Seq<char>>>,
    metrics: MetricsSink,
    outcomes: Seq<Result<(), E>>,
    k: int,
    cause: E,
)
    requires
        descriptors.flatten().no_duplicates(),
        0 <= k < 5,
        k < outcomes.len(),
        forall|i: int| 0 <= i < k ==> outcomes[i] is Ok,
        outcomes[k] == Err::<(), E>(cause),
    ensures
        run(start::<C, E>(config, descriptors, metrics), outcomes) == ProgressView::<
            C,
            E,
        >::Failed(failure(nth_stage(k), cause)),
        requests(start::<C, E>(config, descriptors, metrics), outcomes) == schedule(
            config,
            descriptors.flatten(),
            metrics,
        ).take(k + 1),
    decreases outcomes.len(),
{
    let earlier = outcomes.drop_last();
    if outcomes.len() == k + 1 {
        lemma_successes_follow_schedule::<C, E>(config, descriptors, metrics, earlier);
    } else {
        lemma_failure_ends_initialization(config, descriptors, metrics, earlier, k, cause);
    }
}

/// A handle is composed exactly when every column family is declared once
/// and each of the five requests succeeded: no handle stands for an
/// initialization that stopped half way. A request is pending exactly while
/// fewer than five outcomes were reported and all of them were successes.
pub proof fn lemma_ready_iff_five_successes<C, E>(
    config: StoreConfigView<C>,
    descriptors: Seq<Seq<Seq<char>>>,
    metrics: MetricsSink,
    outcomes: Seq<Result<(), E>>,
)
    ensures
        run(start::<C, E>(config, descriptors, metrics), outcomes) is Ready <==> {
            &&& descriptors.flatten().no_duplicates()
            &&& outcomes.len() >= 5
            &&& forall|k: int| 0 <= k < 5 ==> outcomes[k] is Ok
        },
        run(start::<C, E>(config, descriptors, metrics), outcomes) is Ready ==> run(
            start::<C, E>(config, descriptors, metrics),
            outcomes,
        ) == ProgressView::<C, E>::Ready(composed(config)),
        run(start::<C, E>(config, descriptors, metrics), outcomes) is Pending <==> {
            &&& descriptors.flatten().no_duplicates()
            &&& outcomes.len() < 5
            &&& forall|k: int| 0 <= k < outcomes.len() ==> outcomes[k] is Ok
        },
    decreases outcomes.len(),
{
    let first = start::<C, E>(config, descriptors, metrics);
    if !descriptors.flatten().no_duplicates() {
        lemma_duplicate_requests_nothing::<C, E>(config, descriptors, metrics, outcomes);
    } else if outcomes.len() == 0 {
        lemma_successes_follow_schedule::<C, E>(config, descriptors, metrics, outcomes);
    } else {
        let earlier = outcomes.drop_last();
        let n = outcomes.len() as int;
        lemma_ready_iff_five_successes::<C, E>(config, descriptors, metrics, earlier);
        assert forall|k: int| 0 <= k < n - 1 implies earlier[k] == outcomes[k] by {}
        let five_succeeded = n >= 5 && forall|k: int| 0 <= k < 5 ==> outcomes[k] is Ok;
        let all_succeeded = n < 5 && forall|k: int| 0 <= k < n ==> outcomes[k] is Ok;
        if run(first, earlier) is Pending {
            lemma_successes_follow_schedule::<C, E>(config, descriptors, metrics, earlier);
            if outcomes.last() is Ok {
                assert forall|k: int| 0 <= k < n implies outcomes[k] is Ok by {
                    if k < n - 1 {
                        assert(earlier[k] is Ok);
                    }
                }
                lemma_successes_follow_schedule::<C, E>(config, descriptors, metrics, outcomes);
            } else {
                assert(!(outcomes[n - 1] is Ok));
                assert(!five_succeeded);
                assert(!all_succeeded);
            }
        } else if run(first, earlier) is Ready {
            assert forall|k: int| 0 <= k < 5 implies outcomes[k] is Ok by {
                assert(earlier[k] is Ok);
            }
        } else {
            if five_succeeded {
                assert forall|k: int| 0 <= k < 5 && k < n - 1 implies earlier[k] is Ok by {
                    assert(outcomes[k] is Ok);
                }
                assert(false);
            }
            if all_succeeded {
                assert forall|k: int| 0 <= k < n - 1 implies earlier[k] is Ok by {
                    assert(outcomes[k] is Ok);
                }
                assert(false);
            }
        }
    }
}

/// The sink is handed to the engine request and to nothing else: two
/// initializations that differ in their sink alone issue the same first
/// request but for the sink, and are the same from the first outcome on.
pub proof fn lemma_sink_reaches_only_the_engine_request<C, E>(
    config: StoreConfigView<C>,
    descriptors: Seq<Seq<Seq<char>>>,
    one: MetricsSink,
    other: MetricsSink,
    outcomes: Seq<Result<(), E>>,
)
    ensures
        start::<C, E>(config, descriptors, one).with_sink(other) == start::<C, E>(
            config,
            descriptors,
            other,
        ),
        outcomes.len() > 0 ==> run(start::<C, E>(config, descriptors, one), outcomes) == run(
            start::<C, E>(config, descriptors, other),
            outcomes,
        ),
    decreases outcomes.len(),
{
    if outcomes.len() > 1 {
        lemma_sink_reaches_only_the_engine_request::<C, E>(
            config,
            descriptors,
            one,
            other,
            outcomes.drop_last(),
        );
    } else if outcomes.len() == 1 {
        reveal_with_fuel(run, 2);
    }
}

} // verus!
