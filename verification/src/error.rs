//! Why an initialization was given up.

use vstd::prelude::*;
use vstd::string::StringExecFns;

verus! {

/// The logical stores of a composed database.
#[derive(Clone, Copy, Debug, PartialEq, Eq, Structural)]
pub enum StoreKind {
    /// The virtual-machine state store, on the shared engine.
    MoveosStore,
    /// The chain store, on the shared engine.
    RoochStore,
    /// The indexer store, in its own directory.
    IndexerStore,
    /// The read-only view of the indexer's directory.
    IndexerReader,
}

/// A failed initialization. `E` is the error of the storage layer, kept as it
/// was reported.
#[derive(Debug, PartialEq, Eq)]
pub enum InitError<E> {
    /// Two stores, or one store twice, declared this column family.
    DuplicateColumnFamily(String),
    /// The engine could not be opened.
    EngineOpen(E),
    /// A store could not be bound to its storage.
    StoreBind(StoreKind, E),
}

/// An error with the duplicate name as a character sequence.
pub enum InitErrorView<E> {
    DuplicateColumnFamily(Seq<char>),
    EngineOpen(E),
    StoreBind(StoreKind, E),
}

impl<E> View for InitError<E> {
    type V = InitErrorView<E>;

    open spec fn view(&self) -> InitErrorView<E> {
        match self {
            InitError::DuplicateColumnFamily(name) => InitErrorView::DuplicateColumnFamily(name@),
            InitError::EngineOpen(cause) => InitErrorView::EngineOpen(*cause),
            InitError::StoreBind(store, cause) => InitErrorView::StoreBind(*store, *cause),
        }
    }
}

/// The text that reports a duplicate column family.
pub fn duplicate_message(name: &str) -> (text: String)
    ensures
        text@ == "Duplicate column family: "@ + name@,
{
    String::from_str("Duplicate column family: ").concat(name)
}

} // verus!
