use rooch_db::{
    Binding, InitError, MetricsSink, Progress, Request, RoochDB, Stage, StoreConfig, StoreKind,
};

#[derive(Debug, PartialEq)]
struct Tuning {
    max_open_files: i32,
}

type Step<'a> = Progress<'a, Tuning, String>;

fn config() -> StoreConfig<Tuning> {
    StoreConfig::new(
        "/data/roochdb/store".to_string(),
        "/data/roochdb/indexer".to_string(),
        Tuning { max_open_files: 4096 },
    )
}

fn two_stores() -> Vec<Vec<&'static str>> {
    vec![vec!["cf_a", "cf_b"], vec!["cf_c"]]
}

/// Reports the outcomes one by one and returns what was requested on the way
/// and where the initialization stood in the end.
fn drive<'a>(first: Step<'a>, outcomes: Vec<Result<(), String>>) -> (Vec<String>, Step<'a>) {
    let mut asked = Vec::new();
    let mut progress = first;
    let mut outcomes = outcomes.into_iter();
    loop {
        match progress {
            Progress::Pending(machine, request) => {
                asked.push(label(&request));
                match outcomes.next() {
                    Some(outcome) => progress = machine.step(outcome),
                    None => return (asked, Progress::Pending(machine, request)),
                }
            }
            over => return (asked, over),
        }
    }
}

fn label(request: &Request<'_, Tuning>) -> String {
    match request {
        Request::OpenEngine { store_dir, column_families, rocksdb_config, .. } => {
            format!("open engine {} {:?} {:?}", store_dir, column_families, rocksdb_config)
        }
        Request::BindMoveosStore => "bind moveos store".to_string(),
        Request::BindRoochStore => "bind rooch store".to_string(),
        Request::OpenIndexerStore { indexer_dir } => format!("open indexer store {}", indexer_dir),
        Request::OpenIndexerReader { indexer_dir } => format!("open indexer reader {}", indexer_dir),
    }
}

fn schedule() -> Vec<String> {
    vec![
        "open engine /data/roochdb/store [\"cf_a\", \"cf_b\", \"cf_c\"] Tuning { max_open_files: 4096 }"
            .to_string(),
        "bind moveos store".to_string(),
        "bind rooch store".to_string(),
        "open indexer store /data/roochdb/indexer".to_string(),
        "open indexer reader /data/roochdb/indexer".to_string(),
    ]
}

/// Lets `successes` requests succeed and the next one fail. What is reported
/// after the failure must not matter.
fn failure_after(config: &StoreConfig<Tuning>, successes: usize) -> (Vec<String>, Step<'_>) {
    let mut outcomes = vec![Ok(()); successes];
    outcomes.push(Err("disk unwritable".to_string()));
    outcomes.push(Ok(()));
    outcomes.push(Ok(()));
    drive(RoochDB::init(config, &two_stores()), outcomes)
}

fn error_of(end: Step<'_>) -> InitError<String> {
    match end {
        Progress::Failed(error) => error,
        other => panic!("expected a failure, got {:?}", other),
    }
}

#[test]
fn unique_names_ask_for_the_engine_with_all_of_them() {
    let config = config();
    let first: Step = RoochDB::init(&config, &two_stores());
    match first {
        Progress::Pending(
            machine,
            Request::OpenEngine { store_dir, column_families, rocksdb_config, metrics },
        ) => {
            assert_eq!(machine.stage(), Stage::EngineOpen);
            assert_eq!(store_dir, "/data/roochdb/store");
            assert_eq!(column_families, vec!["cf_a", "cf_b", "cf_c"]);
            assert_eq!(rocksdb_config, &Tuning { max_open_files: 4096 });
            assert!(matches!(metrics, MetricsSink::Shared));
        }
        other => panic!("expected the engine request, got {:?}", other),
    }
}

#[test]
fn shared_name_fails_at_once_with_that_name() {
    let config = config();
    let descriptors = vec![vec!["cf_a"], vec!["cf_a"]];
    let first: Step = RoochDB::init(&config, &descriptors);
    assert_eq!(error_of(first), InitError::DuplicateColumnFamily("cf_a".to_string()));
}

#[test]
fn duplicate_requests_nothing() {
    let config = config();
    let descriptors = vec![vec!["state", "tx"], vec!["meta", "tx", "state"]];
    let first: Step = RoochDB::init_with_metrics(&config, &descriptors, MetricsSink::Shared);
    let (asked, end) = drive(first, vec![Ok(()), Ok(()), Ok(()), Ok(()), Ok(())]);
    assert!(asked.is_empty());
    assert_eq!(error_of(end), InitError::DuplicateColumnFamily("tx".to_string()));
}

#[test]
fn five_successes_compose_the_handle() {
    let config = config();
    let first: Step = RoochDB::init(&config, &two_stores());
    let (asked, end) = drive(first, vec![Ok(()), Ok(()), Ok(()), Ok(()), Ok(())]);
    assert_eq!(asked, schedule());
    match end {
        Progress::Ready(db) => {
            let engine = Binding::Engine("/data/roochdb/store".to_string());
            let directory = Binding::Directory("/data/roochdb/indexer".to_string());
            assert_eq!(db.moveos_store(), &engine);
            assert_eq!(db.rooch_store(), &engine);
            assert_eq!(db.indexer_store(), &directory);
            assert_eq!(db.indexer_reader(), &directory);
            assert_eq!(db.clone(), db);
        }
        other => panic!("expected the handle, got {:?}", other),
    }
}

#[test]
fn outcomes_past_the_handle_change_nothing() {
    let config = config();
    let first: Step = RoochDB::init(&config, &two_stores());
    let mut outcomes = vec![Ok(()); 5];
    outcomes.push(Err("late".to_string()));
    let (asked, end) = drive(first, outcomes);
    assert_eq!(asked, schedule());
    assert!(matches!(end, Progress::Ready(_)));
}

#[test]
fn stages_follow_one_another() {
    let config = config();
    let stages = [
        Stage::EngineOpen,
        Stage::MoveosStoreBind,
        Stage::RoochStoreBind,
        Stage::IndexerStoreOpen,
        Stage::IndexerReaderOpen,
    ];
    for done in 0..5 {
        let first: Step = RoochDB::init(&config, &two_stores());
        let (asked, end) = drive(first, vec![Ok(()); done]);
        assert_eq!(asked, schedule()[..done + 1].to_vec());
        match end {
            Progress::Pending(machine, _) => assert_eq!(machine.stage(), stages[done]),
            other => panic!("expected a pending request, got {:?}", other),
        }
    }
}

#[test]
fn engine_failure_ends_the_initialization() {
    let config = config();
    let (asked, end) = failure_after(&config, 0);
    assert_eq!(asked, schedule()[..1].to_vec());
    assert_eq!(error_of(end), InitError::EngineOpen("disk unwritable".to_string()));
}

#[test]
fn moveos_store_failure_ends_the_initialization() {
    let config = config();
    let (asked, end) = failure_after(&config, 1);
    assert_eq!(asked, schedule()[..2].to_vec());
    assert_eq!(
        error_of(end),
        InitError::StoreBind(StoreKind::MoveosStore, "disk unwritable".to_string())
    );
}

#[test]
fn rooch_store_failure_ends_the_initialization() {
    let config = config();
    let (asked, end) = failure_after(&config, 2);
    assert_eq!(asked, schedule()[..3].to_vec());
    assert_eq!(
        error_of(end),
        InitError::StoreBind(StoreKind::RoochStore, "disk unwritable".to_string())
    );
}

#[test]
fn indexer_store_failure_ends_the_initialization() {
    let config = config();
    let (asked, end) = failure_after(&config, 3);
    assert_eq!(asked, schedule()[..4].to_vec());
    assert_eq!(
        error_of(end),
        InitError::StoreBind(StoreKind::IndexerStore, "disk unwritable".to_string())
    );
}

#[test]
fn indexer_reader_failure_ends_the_initialization() {
    let config = config();
    let (asked, end) = failure_after(&config, 4);
    assert_eq!(asked, schedule());
    assert_eq!(
        error_of(end),
        InitError::StoreBind(StoreKind::IndexerReader, "disk unwritable".to_string())
    );
}

#[test]
fn mock_metrics_start_from_an_empty_registry_of_their_own() {
    let config = config();
    let first: Step = RoochDB::init_with_mock_metrics_for_test(&config, &two_stores());
    match first {
        Progress::Pending(_, Request::OpenEngine { metrics: MetricsSink::Isolated(registry), .. }) => {
            assert!(registry.gather().is_empty());
        }
        other => panic!("expected an isolated sink, got {:?}", other),
    }
}

#[test]
fn both_entry_points_bind_alike() {
    let config = config();
    for done in 0..=5 {
        let production: Step = RoochDB::init(&config, &two_stores());
        let mock: Step = RoochDB::init_with_mock_metrics_for_test(&config, &two_stores());
        let production = drive(production, vec![Ok(()); done]);
        let mock = drive(mock, vec![Ok(()); done]);
        assert_eq!(production.0, mock.0);
        match (production.1, mock.1) {
            (Progress::Ready(one), Progress::Ready(other)) => assert_eq!(one, other),
            (Progress::Pending(one, _), Progress::Pending(other, _)) => {
                assert_eq!(one.stage(), other.stage())
            }
            (one, other) => panic!("{:?} and {:?} differ", one, other),
        }
    }
    let shared = vec![vec!["cf_a"], vec!["cf_a"]];
    let production: Step = RoochDB::init(&config, &shared);
    let mock: Step = RoochDB::init_with_mock_metrics_for_test(&config, &shared);
    assert_eq!(error_of(production), error_of(mock));
}

#[test]
fn injected_sink_reaches_the_engine_request() {
    let config = config();
    let sink = MetricsSink::Isolated(prometheus::Registry::new());
    let first: Step = RoochDB::init_with_metrics(&config, &two_stores(), sink);
    match first {
        Progress::Pending(_, Request::OpenEngine { metrics, .. }) => {
            assert!(matches!(metrics, MetricsSink::Isolated(_)));
        }
        other => panic!("expected the engine request, got {:?}", other),
    }
}

#[test]
fn no_descriptors_still_open_the_engine() {
    let config = config();
    let none: Vec<Vec<&str>> = Vec::new();
    let first: Step = RoochDB::init(&config, &none);
    match first {
        Progress::Pending(_, Request::OpenEngine { column_families, .. }) => {
            assert!(column_families.is_empty());
        }
        other => panic!("expected the engine request, got {:?}", other),
    }
}
