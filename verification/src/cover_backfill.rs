//! Library cover backfill: the decisions of one background pass over the
//! catalogue. The pass fetches cover batches page by page behind a cursor,
//! yields while the UI holds priority, stops as soon as the session loses
//! focus, reports progress every few batches and, once the catalogue is
//! exhausted, clears stale fetch failures when many covers are still pending.
//! Waiting, fetching and downloading are done by the caller; this module says
//! what to do next.

use vstd::prelude::*;
use crate::text::str_eq;

verus! {

/// Concurrent library downloads and encodes.
pub const LIBRARY_BACKFILL_PARALLEL: u32 = 2;

/// Covers asked for per batch.
pub const BATCH_SIZE: u32 = 24;

/// Pending covers above which failed fetches are cleared for another try.
pub const PENDING_RESTART_THRESHOLD: i64 = 32;

/// Milliseconds to wait while an initial sync is still running.
pub const SYNC_WAIT_MS: u64 = 5000;

/// Milliseconds to wait while the UI holds priority.
pub const UI_HOLD_WAIT_MS: u64 = 200;

/// Progress is reported after every this many batches.
pub const PROGRESS_EVERY_BATCHES: u32 = 8;

/// The server a backfill pass works for, with its credentials.
#[derive(Clone)]
pub struct CoverBackfillSession {
    pub server_index_key: String,
    pub library_server_id: String,
    pub rest_base_url: String,
    pub username: String,
    pub password: String,
}

/// Answer of the one-step diagnostics API.
#[derive(Debug, Clone)]
pub struct CoverBackfillPulseDto {
    pub scheduled: u32,
    pub exhausted: bool,
    pub pending: i64,
    pub done: i64,
    pub total: i64,
    pub status: String,
}

/// Answer of the API that starts a pass.
#[derive(Debug, Clone, Copy, PartialEq, Eq, Structural)]
pub struct CoverBackfillRunDto {
    pub started: bool,
}

/// A sync event names the session's server by either of its ids.
pub fn session_matches_server(session: &CoverBackfillSession, server_id: &str) -> (r: bool)
    ensures
        r == (server_id@ == session.server_index_key@ || server_id@ == session.library_server_id@),
{
    str_eq(server_id, session.server_index_key.as_str()) || str_eq(
        server_id,
        session.library_server_id.as_str(),
    )
}

pub open spec fn sync_allows_spec(phase: Option<Seq<char>>) -> bool {
    match phase {
        Some(p) => p != "initial_sync"@ && p != "probing"@,
        None => true,
    }
}

/// Backfill waits while the server's initial sync or probe runs. `phase` is
/// the stored sync phase; a phase that is missing or cannot be read lets the
/// backfill run.
pub fn sync_allows_cover_backfill(phase: Option<&str>) -> (r: bool)
    ensures
        r == sync_allows_spec(
            match phase {
                Some(p) => Some(p@),
                None => None,
            },
        ),
{
    match phase {
        Some(p) => !str_eq(p, "initial_sync") && !str_eq(p, "probing"),
        None => true,
    }
}

/// A pass keeps running only while backfill is enabled and the configured
/// session is still the one the pass started with.
pub fn session_still_focused(
    enabled: bool,
    current: Option<&CoverBackfillSession>,
    expected: &CoverBackfillSession,
) -> (r: bool)
    ensures
        r == (enabled && match current {
            Some(s) => s.server_index_key@ == expected.server_index_key@,
            None => false,
        }),
{
    if !enabled {
        return false;
    }
    match current {
        Some(s) => str_eq(s.server_index_key.as_str(), expected.server_index_key.as_str()),
        None => false,
    }
}

/// What a finished sync of `server_id` does to the backfill: schedule a pass
/// when the sync succeeded, backfill is enabled and the session is for that
/// server.
pub fn schedule_after_sync_idle(
    sync_ok: bool,
    enabled: bool,
    session: Option<&CoverBackfillSession>,
    server_id: &str,
) -> (r: bool)
    ensures
        r == (sync_ok && enabled && match session {
            Some(s) => server_id@ == s.server_index_key@ || server_id@ == s.library_server_id@,
            None => false,
        }),
{
    if !sync_ok || !enabled {
        return false;
    }
    match session {
        Some(s) => session_matches_server(s, server_id),
        None => false,
    }
}

/// `(max, active, pass_running)` of the backfill HTTP slots, from the number
/// of free slots.
pub fn pipeline_http_stats(available_permits: usize, pass_running: bool) -> (r: (u32, u32, bool))
    ensures
        r.0 == LIBRARY_BACKFILL_PARALLEL,
        r.1 == (if (available_permits as u32) >= LIBRARY_BACKFILL_PARALLEL {
            0
        } else {
            LIBRARY_BACKFILL_PARALLEL - (available_permits as u32)
        }),
        r.2 == pass_running,
{
    let max = LIBRARY_BACKFILL_PARALLEL;
    let active = max.saturating_sub(available_permits as u32);
    (max, active, pass_running)
}

/// The answer of the one-step API: `active` when a pass was scheduled,
/// otherwise `disabled` and exhausted.
pub fn pulse_dto(scheduled: bool) -> (r: CoverBackfillPulseDto)
    ensures
        r.scheduled == 0,
        r.pending == 0,
        r.done == 0,
        r.total == 0,
        r.exhausted == !scheduled,
        r.status@ == (if scheduled {
            "active"@
        } else {
            "disabled"@
        }),
{
    if scheduled {
        CoverBackfillPulseDto {
            scheduled: 0,
            exhausted: false,
            pending: 0,
            done: 0,
            total: 0,
            status: String::from_str("active"),
        }
    } else {
        CoverBackfillPulseDto {
            scheduled: 0,
            exhausted: true,
            pending: 0,
            done: 0,
            total: 0,
            status: String::from_str("disabled"),
        }
    }
}

/// While waiting for a sync to finish: go on, keep waiting, or give up
/// because backfill was switched off.
#[derive(Debug, Clone, Copy, PartialEq, Eq, Structural)]
pub enum SyncWait {
    Proceed,
    Wait,
    Abort,
}

pub fn sync_wait_step(sync_allows: bool, enabled: bool) -> (r: SyncWait)
    ensures
        sync_allows ==> r == SyncWait::Proceed,
        !sync_allows && !enabled ==> r == SyncWait::Abort,
        !sync_allows && enabled ==> r == SyncWait::Wait,
{
    if sync_allows {
        SyncWait::Proceed
    } else if !enabled {
        SyncWait::Abort
    } else {
        SyncWait::Wait
    }
}

/// The next step at the top of the pass loop.
#[derive(Debug, Clone, PartialEq, Eq)]
pub enum PassStep {
    /// The session lost focus: end the pass.
    Stop,
    /// The UI holds priority: wait a moment and look again.
    PauseForUi,
    /// Fetch the next batch after the cursor; `None` means from the start.
    Fetch(Option<String>),
}

pub open spec fn cursor_arg(cursor: Seq<char>) -> Option<Seq<char>> {
    if cursor.len() == 0 {
        None
    } else {
        Some(cursor)
    }
}

pub open spec fn pass_step_spec(focused: bool, ui_hold: bool, cursor: Seq<char>) -> Option<
    Option<Option<Seq<char>>>,
> {
    if !focused {
        None
    } else if ui_hold {
        Some(None)
    } else {
        Some(Some(cursor_arg(cursor)))
    }
}

pub open spec fn pass_step_view(s: PassStep) -> Option<Option<Option<Seq<char>>>> {
    match s {
        PassStep::Stop => None,
        PassStep::PauseForUi => Some(None),
        PassStep::Fetch(c) => Some(
            Some(
                match c {
                    Some(x) => Some(x@),
                    None => None,
                },
            ),
        ),
    }
}

/// Decide the next step from the focus, the UI hold and the stored cursor.
pub fn pass_step(focused: bool, ui_hold: bool, cursor: &str) -> (r: PassStep)
    ensures
        pass_step_view(r) == pass_step_spec(focused, ui_hold, cursor@),
{
    if !focused {
        PassStep::Stop
    } else if ui_hold {
        PassStep::PauseForUi
    } else if cursor.unicode_len() == 0 {
        PassStep::Fetch(None)
    } else {
        PassStep::Fetch(Some(String::from_str(cursor)))
    }
}

/// What to do once a fetched batch has been handed out.
#[derive(Debug, Clone, PartialEq, Eq)]
pub enum AfterBatch {
    /// The UI took priority while the batch ran: keep the cursor and go
    /// round again.
    PauseForUi,
    /// Move on; store `next_cursor` when there is one.
    Advance { next_cursor: Option<String>, emit_progress: bool },
    /// The catalogue is exhausted: clear the cursor, report, end the pass.
    Finish { emit_progress: bool },
}

/// Counter of one running pass.
#[derive(Debug, Clone, Copy, PartialEq, Eq, Structural)]
pub struct BackfillPass {
    pub batch_count: u32,
}

impl BackfillPass {
    /// A pass at its start; the caller also clears the stored cursor.
    pub fn start() -> (r: Self)
        ensures
            r.batch_count == 0,
    {
        BackfillPass { batch_count: 0 }
    }

    /// Count a fetched batch; the pass goes on only while still focused.
    pub fn record_batch(&mut self, focused: bool) -> (r: bool)
        requires
            old(self).batch_count < u32::MAX,
        ensures
            final(self).batch_count == old(self).batch_count + 1,
            r == focused,
    {
        self.batch_count = self.batch_count + 1;
        focused
    }

    /// Progress is due on every `PROGRESS_EVERY_BATCHES`-th batch.
    pub fn progress_due(&self) -> (r: bool)
        ensures
            r == (self.batch_count % PROGRESS_EVERY_BATCHES == 0),
    {
        self.batch_count % PROGRESS_EVERY_BATCHES == 0
    }

    /// Decide after a batch: `paused` says whether handing out stopped for
    /// the UI, `hold_now` whether the UI holds priority now.
    pub fn after_batch(
        &self,
        paused: bool,
        hold_now: bool,
        exhausted: bool,
        next_cursor: Option<String>,
    ) -> (r: AfterBatch)
        ensures
            (paused || hold_now) ==> r == AfterBatch::PauseForUi,
            !(paused || hold_now) && exhausted ==> r == (AfterBatch::Finish {
                emit_progress: self.batch_count % PROGRESS_EVERY_BATCHES == 0,
            }),
            !(paused || hold_now) && !exhausted ==> r == (AfterBatch::Advance {
                next_cursor,
                emit_progress: self.batch_count % PROGRESS_EVERY_BATCHES == 0,
            }),
    {
        if paused || hold_now {
            return AfterBatch::PauseForUi;
        }
        let emit_progress = self.progress_due();
        if exhausted {
            AfterBatch::Finish { emit_progress }
        } else {
            AfterBatch::Advance { next_cursor, emit_progress }
        }
    }
}

/// At the end of a pass, failed fetches are cleared when more covers than
/// the threshold are still pending, so the next pass tries them again.
pub fn should_clear_fetch_failures(pending: i64) -> (r: bool)
    ensures
        r == (pending > PENDING_RESTART_THRESHOLD),
{
    pending > PENDING_RESTART_THRESHOLD
}

} // verus!
