use vstd::prelude::*;

verus! {

/// A stateless stub of a data store, for wiring components in tests. It
/// holds no accounts and publishes no snapshot; published state is read
/// through `StateManager::read_handle`.
pub struct MockStateStore {}

impl MockStateStore {
    pub fn new() -> (r: MockStateStore)
        ensures
            r == (MockStateStore {}),
    {
        MockStateStore {}
    }

    /// The stub's reader, which is as empty as the store.
    pub fn state_reader(&self) -> (r: MockStateReader)
        ensures
            r == (MockStateReader {}),
    {
        MockStateReader::new()
    }
}

/// A stateless stub of a state reader: it shows no snapshot at all.
pub struct MockStateReader {}

impl MockStateReader {
    pub fn new() -> (r: MockStateReader)
        ensures
            r == (MockStateReader {}),
    {
        MockStateReader {}
    }
}

} // verus!
