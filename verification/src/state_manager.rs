//! The daemon's progress record, shared between the upload workers and the
//! settings window, and the handle of the file it is persisted to.

use vstd::prelude::*;
use std::path::PathBuf;

verus! {

/// Snapshot of the upload pipeline. The wall-clock stamp that the persisted
/// form carries is added where the record is written to disk.
#[derive(Clone, Debug)]
pub struct AppState {
    pub queue_size: usize,
    pub total_queued: usize,
    pub processed_count: usize,
    pub failed_count: usize,
    /// In-flight worker count.
    pub active_workers: usize,
    pub current_file: Option<String>,
    pub status: String,
    pub progress: u8,
}

/// The mathematical content of an [`AppState`].
pub struct AppStateView {
    pub queue_size: nat,
    pub total_queued: nat,
    pub processed_count: nat,
    pub failed_count: nat,
    pub active_workers: nat,
    pub current_file: Option<Seq<char>>,
    pub status: Seq<char>,
    pub progress: nat,
}

impl View for AppState {
    type V = AppStateView;

    open spec fn view(&self) -> AppStateView {
        AppStateView {
            queue_size: self.queue_size as nat,
            total_queued: self.total_queued as nat,
            processed_count: self.processed_count as nat,
            failed_count: self.failed_count as nat,
            active_workers: self.active_workers as nat,
            current_file: match self.current_file {
                Some(f) => Some(f@),
                None => None,
            },
            status: self.status@,
            progress: self.progress as nat,
        }
    }
}

/// The record of a daemon that has not seen any file yet.
pub open spec fn initial_state() -> AppStateView {
    AppStateView {
        queue_size: 0,
        total_queued: 0,
        processed_count: 0,
        failed_count: 0,
        active_workers: 0,
        current_file: None,
        status: "idle"@,
        progress: 0,
    }
}

impl Default for AppState {
    fn default() -> (s: Self)
        ensures
            s@ == initial_state(),
    {
        AppState {
            queue_size: 0,
            total_queued: 0,
            processed_count: 0,
            failed_count: 0,
            active_workers: 0,
            current_file: None,
            status: String::from_str("idle"),
            progress: 0,
        }
    }
}

impl AppState {
    /// The record a new daemon starts from, given the one saved by the last
    /// run: counters are kept, the status is reset to idle and no worker is
    /// in flight.
    pub fn restored(saved: AppState) -> (s: AppState)
        ensures
            s@ == (AppStateView { status: "idle"@, active_workers: 0, ..saved@ }),
    {
        AppState { status: String::from_str("idle"), active_workers: 0, ..saved }
    }
}

/// Where the progress record is persisted (`~/.cache/mimick/status.json`).
pub struct StateManager {
    pub state_file: PathBuf,
}

} // verus!
