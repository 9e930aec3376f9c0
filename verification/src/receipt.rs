//! When a transport accepted the last byte of one frame.
use std::sync::Arc;
use std::sync::OnceLock;
use vstd::prelude::*;

verus! {

#[verifier::external_type_specification]
#[verifier::external_body]
#[verifier::reject_recursive_types(T)]
pub struct ExOnceLock<T>(OnceLock<T>);

/// `OnceLock::new`: a cell that holds no value yet. Nothing is stated of the cell:
/// other handles of the same cell may fill it at any time.
#[verifier::external_body]
fn once_cell_new() -> (cell: OnceLock<u64>) {
    OnceLock::new()
}

/// `OnceLock::set`: fills the cell unless it already holds a value; a second call
/// leaves the first value in place. Nothing is stated, since the cell is shared.
#[verifier::external_body]
fn once_cell_set(cell: &OnceLock<u64>, at: u64) {
    let _ = cell.set(at);
}

/// `OnceLock::get`: the value the cell holds, if one was set. Another handle of the
/// same cell may set it at any time, so no clause ties the result to earlier calls.
#[verifier::external_body]
fn once_cell_get(cell: &OnceLock<u64>) -> (at: Option<u64>) {
    cell.get().copied()
}

/// When a transport accepted the last byte of one frame, in milliseconds of the
/// caller's clock. Clones share one cell: the writer that drains the frame
/// completes it, and every holder sees the instant. A receipt made for a frame
/// that was already written also keeps that instant itself.
#[derive(Clone)]
pub struct TransmitReceipt {
    cell: Arc<OnceLock<u64>>,
    written_at: Option<u64>,
}

impl TransmitReceipt {
    /// The instant this receipt was made with, for a frame already written when
    /// it was made; none for a frame still queued then. Whatever writer later
    /// completes a queued frame records its instant in the shared cell, which no
    /// clause follows.
    pub closed spec fn known_at(&self) -> Option<u64> {
        self.written_at
    }

    /// A frame still in the writer queue.
    pub fn pending() -> (r: Self)
        ensures
            r.known_at() is None,
    {
        TransmitReceipt { cell: Arc::new(once_cell_new()), written_at: None }
    }

    /// A frame already written by the time the caller's clock read `at`.
    pub fn transmitted(at: u64) -> (r: Self)
        ensures
            r.known_at() == Some(at),
    {
        let cell = Arc::new(once_cell_new());
        once_cell_set(&cell, at);
        TransmitReceipt { cell, written_at: Some(at) }
    }

    /// Records the instant the writer accepted the frame's last byte. Later calls
    /// are ignored: a frame is transmitted once.
    pub fn complete(&self, at: u64) {
        once_cell_set(&self.cell, at);
    }

    /// The instant the frame was transmitted, once it was: for a receipt made
    /// for a written frame, the instant it was made with. For a queued frame it
    /// is what the shared cell holds, which depends on when its writer runs.
    pub fn transmitted_at(&self) -> (at: Option<u64>)
        ensures
            self.known_at() matches Some(t) ==> at == Some(t),
    {
        match self.written_at {
            Some(t) => Some(t),
            None => once_cell_get(&self.cell),
        }
    }
}

} // verus!
