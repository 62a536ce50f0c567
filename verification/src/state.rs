use vstd::prelude::*;

verus! {

/// The cached workspace directory, shared by all operations of one process.
///
/// An empty `base_dir` means that no directory has been resolved yet. Callers that share a
/// value between tasks guard it with a lock of their own and hold it only for the length of
/// one call into this library.
#[derive(Debug)]
pub struct AppState {
    pub base_dir: String,
}

impl AppState {
    /// The state at process start: no directory resolved yet.
    pub fn new() -> (state: AppState)
        ensures
            state@.len() == 0,
    {
        AppState { base_dir: String::new() }
    }
}

impl View for AppState {
    type V = Seq<char>;

    open spec fn view(&self) -> Seq<char> {
        self.base_dir@
    }
}

} // verus!
