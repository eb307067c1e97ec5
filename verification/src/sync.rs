//! Library sync state: the persisted initial-sync cursor and the tombstone
//! reconciliation rules (threshold check, per-probe bookkeeping, retries).

use vstd::prelude::*;

verus! {

/// Ingest strategies the runner picks from server capabilities.
#[derive(Debug, Clone, Copy, PartialEq, Eq, Structural)]
pub enum IngestStrategy {
    N1,
    S1,
    S2,
    S3,
}

pub open spec fn strategy_tag_spec(s: IngestStrategy) -> Seq<char> {
    match s {
        IngestStrategy::N1 => "n1"@,
        IngestStrategy::S1 => "s1"@,
        IngestStrategy::S2 => "s2"@,
        IngestStrategy::S3 => "s3"@,
    }
}

impl IngestStrategy {
    /// Tag stored in the cursor JSON.
    pub fn as_tag(self) -> (r: &'static str)
        ensures
            r@ == strategy_tag_spec(self),
    {
        match self {
            IngestStrategy::N1 => "n1",
            IngestStrategy::S1 => "s1",
            IngestStrategy::S2 => "s2",
            IngestStrategy::S3 => "s3",
        }
    }
}

/// Phases advance `Ingest -> ArtistPass -> Watermarks -> Done`.
#[derive(Debug, Clone, Copy, PartialEq, Eq, Structural)]
pub enum CursorPhase {
    Ingest,
    ArtistPass,
    Watermarks,
    Done,
}

/// Per-strategy offset state.
#[derive(Debug, PartialEq, Eq)]
pub enum StrategyState {
    /// Single linear offset.
    LinearOffset { offset: u32 },
    /// Outer album-list offset plus the album in flight when interrupted.
    AlbumCrawl { album_offset: u32, current_album_id: Option<String> },
    /// No progress yet.
    Empty,
}

impl Default for StrategyState {
    fn default() -> (r: Self)
        ensures
            r is Empty,
    {
        StrategyState::Empty
    }
}

/// Cursor persisted between runs so an interrupted initial sync resumes.
#[derive(Debug, PartialEq, Eq)]
pub struct InitialSyncCursor {
    /// Ingest strategy in flight, stored as its tag.
    pub strategy: String,
    pub phase: CursorPhase,
    /// Library scope of the run; `None` means all libraries.
    pub library_scope: Option<String>,
    /// Tracks ingested across the run so far.
    pub ingested_count: u32,
    pub strategy_state: StrategyState,
    /// Full-resync generation for mark-and-sweep cleanup.
    pub resync_gen: Option<i64>,
}

impl InitialSyncCursor {
    /// A cursor at the start of ingest for `strategy`.
    pub fn fresh(strategy: IngestStrategy, library_scope: Option<String>) -> (r: Self)
        ensures
            r.strategy@ == strategy_tag_spec(strategy),
            r.phase == CursorPhase::Ingest,
            r.library_scope == library_scope,
            r.ingested_count == 0,
            r.resync_gen is None,
            r.strategy_state == (match strategy {
                IngestStrategy::N1 | IngestStrategy::S1 => StrategyState::LinearOffset { offset: 0 },
                IngestStrategy::S2 => StrategyState::AlbumCrawl {
                    album_offset: 0,
                    current_album_id: None,
                },
                IngestStrategy::S3 => StrategyState::Empty,
            }),
    {
        let strategy_state = match strategy {
            IngestStrategy::N1 | IngestStrategy::S1 => StrategyState::LinearOffset { offset: 0 },
            IngestStrategy::S2 => StrategyState::AlbumCrawl { album_offset: 0, current_album_id: None },
            IngestStrategy::S3 => StrategyState::Empty,
        };
        InitialSyncCursor {
            strategy: String::from_str(strategy.as_tag()),
            phase: CursorPhase::Ingest,
            library_scope,
            ingested_count: 0,
            strategy_state,
            resync_gen: None,
        }
    }

    pub fn strategy_tag(&self) -> (r: &str)
        ensures
            r@ == self.strategy@,
    {
        self.strategy.as_str()
    }
}

/// Counts of one reconciliation chunk.
#[derive(Debug, Clone, Copy, PartialEq, Eq, Structural)]
pub struct TombstoneReport {
    pub checked: u32,
    pub deleted: u32,
}

impl Default for TombstoneReport {
    fn default() -> (r: Self)
        ensures
            r.checked == 0 && r.deleted == 0,
    {
        TombstoneReport { checked: 0, deleted: 0 }
    }
}

/// Whether the server still has a probed track, after retries.
#[derive(Debug, Clone, Copy, PartialEq, Eq, Structural)]
pub enum ProbeOutcome {
    /// The track is still there.
    Present,
    /// The server answered "not found".
    NotFound,
    /// Any other failure: the chunk stops with that error.
    Failed,
}

/// What to do with a probed track.
#[derive(Debug, Clone, Copy, PartialEq, Eq, Structural)]
pub enum TombstoneAction {
    /// Stamp `synced_at` so the track goes to the back of the queue.
    MarkSynced,
    /// Mark the track deleted.
    MarkDeleted,
    /// Stop the chunk and report the error.
    Abort,
}

pub open spec fn sat_inc(x: u32) -> u32 {
    if x == u32::MAX {
        x
    } else {
        (x + 1) as u32
    }
}

/// The report after counting one probe.
pub open spec fn record_spec(r: TombstoneReport, outcome: ProbeOutcome) -> TombstoneReport {
    TombstoneReport {
        checked: sat_inc(r.checked),
        deleted: if outcome == ProbeOutcome::NotFound {
            sat_inc(r.deleted)
        } else {
            r.deleted
        },
    }
}

pub open spec fn action_for(outcome: ProbeOutcome) -> TombstoneAction {
    match outcome {
        ProbeOutcome::Present => TombstoneAction::MarkSynced,
        ProbeOutcome::NotFound => TombstoneAction::MarkDeleted,
        ProbeOutcome::Failed => TombstoneAction::Abort,
    }
}

impl TombstoneReport {
    /// Count a probe (`checked` counts every probe attempted, `deleted` the
    /// not-found ones; both saturate) and say what happens to the track.
    pub fn record_probe(&mut self, outcome: ProbeOutcome) -> (r: TombstoneAction)
        ensures
            *final(self) == record_spec(*old(self), outcome),
            r == action_for(outcome),
    {
        self.checked = self.checked.saturating_add(1);
        match outcome {
            ProbeOutcome::Present => TombstoneAction::MarkSynced,
            ProbeOutcome::NotFound => {
                self.deleted = self.deleted.saturating_add(1);
                TombstoneAction::MarkDeleted
            },
            ProbeOutcome::Failed => TombstoneAction::Abort,
        }
    }
}

/// The next move of a reconciliation chunk.
#[derive(Debug, Clone, Copy, PartialEq, Eq, Structural)]
pub enum ChunkStep {
    /// Read up to `budget` candidates, stalest first.
    ReadCandidates,
    /// Probe the next candidate.
    Probe,
    /// Stop: the caller cancelled the sync.
    Cancel,
    /// Stop with the report so far.
    Finish,
}

pub open spec fn chunk_step_spec(budget: u32, candidates: Option<usize>, next: usize, cancelled: bool) -> ChunkStep {
    if budget == 0 {
        ChunkStep::Finish
    } else {
        match candidates {
            None => ChunkStep::ReadCandidates,
            Some(n) => if next >= n {
                ChunkStep::Finish
            } else if cancelled {
                ChunkStep::Cancel
            } else {
                ChunkStep::Probe
            },
        }
    }
}

/// Decide a chunk's next move. A zero budget finishes at once, with an empty
/// report and no read; otherwise the candidates are read first, and each one
/// is probed in turn unless cancellation was asked for before it.
/// `candidates` is how many were read (`None` before the read), `next` the
/// position of the candidate at hand.
pub fn chunk_step(budget: u32, candidates: Option<usize>, next: usize, cancelled: bool) -> (r: ChunkStep)
    ensures
        r == chunk_step_spec(budget, candidates, next, cancelled),
{
    if budget == 0 {
        return ChunkStep::Finish;
    }
    match candidates {
        None => ChunkStep::ReadCandidates,
        Some(n) => if next >= n {
            ChunkStep::Finish
        } else if cancelled {
            ChunkStep::Cancel
        } else {
            ChunkStep::Probe
        },
    }
}

/// The report of a chunk whose probes came out as `outcomes`, in order.
pub open spec fn report_after(outcomes: Seq<ProbeOutcome>) -> TombstoneReport
    decreases outcomes.len(),
{
    if outcomes.len() == 0 {
        TombstoneReport { checked: 0, deleted: 0 }
    } else {
        record_spec(report_after(outcomes.drop_last()), outcomes.last())
    }
}

/// Probes that found the track gone.
pub open spec fn not_found_count(outcomes: Seq<ProbeOutcome>) -> nat
    decreases outcomes.len(),
{
    if outcomes.len() == 0 {
        0
    } else {
        not_found_count(outcomes.drop_last()) + if outcomes.last() == ProbeOutcome::NotFound {
            1nat
        } else {
            0nat
        }
    }
}

/// Counting a probe never lets `deleted` pass `checked`.
pub proof fn law_probe_keeps_deleted_within_checked(r: TombstoneReport, outcome: ProbeOutcome)
    requires
        r.deleted <= r.checked,
    ensures
        record_spec(r, outcome).deleted <= record_spec(r, outcome).checked,
{
}

/// A chunk's report counts every probe in `checked` and the not-found ones
/// in `deleted` (below the `u32` limit, where the counts saturate).
pub proof fn law_report_counts_probes(outcomes: Seq<ProbeOutcome>)
    requires
        outcomes.len() <= u32::MAX,
    ensures
        report_after(outcomes).checked == outcomes.len(),
        report_after(outcomes).deleted == not_found_count(outcomes),
        report_after(outcomes).deleted <= report_after(outcomes).checked,
    decreases outcomes.len(),
{
    if outcomes.len() > 0 {
        law_report_counts_probes(outcomes.drop_last());
    }
}

/// The kinds of sync failure a probe can end with.
#[derive(Debug, Clone, Copy, PartialEq, Eq, Structural)]
pub enum SyncErrorKind {
    /// The request did not get through.
    Transport,
    /// The server answered with an error of its own.
    Navidrome,
    /// The server does not know the track.
    NotFound,
    /// The run was cancelled.
    Cancelled,
    /// The local store failed.
    Storage,
    /// Any other failure.
    Other,
}

/// Transport and server errors are transient and worth retrying.
pub fn is_retryable(e: SyncErrorKind) -> (r: bool)
    ensures
        r == (e == SyncErrorKind::Transport || e == SyncErrorKind::Navidrome),
{
    match e {
        SyncErrorKind::Transport | SyncErrorKind::Navidrome => true,
        _ => false,
    }
}

/// A probe's outcome from its final result: success means present, a
/// not-found error means gone, any other error fails the chunk.
pub fn probe_outcome(failure: Option<SyncErrorKind>) -> (r: ProbeOutcome)
    ensures
        r == match failure {
            None => ProbeOutcome::Present,
            Some(SyncErrorKind::NotFound) => ProbeOutcome::NotFound,
            Some(_) => ProbeOutcome::Failed,
        },
{
    match failure {
        None => ProbeOutcome::Present,
        Some(SyncErrorKind::NotFound) => ProbeOutcome::NotFound,
        Some(_) => ProbeOutcome::Failed,
    }
}

/// Attempts per probe before a transient failure is reported.
pub const MAX_ATTEMPTS_PER_BATCH: u32 = 5;

/// Retry a failed probe only when the failure is transient and attempts
/// remain.
pub fn should_retry(attempt: u32, retryable: bool) -> (r: bool)
    ensures
        r == (retryable && attempt < MAX_ATTEMPTS_PER_BATCH),
{
    retryable && attempt < MAX_ATTEMPTS_PER_BATCH
}

/// Mode B threshold: the local count exceeds the server count by more than
/// `threshold_pct` percent of the server count, compared exactly. A zero
/// server count is "no signal".
pub open spec fn auto_reconcile_spec(local: u32, server: u32, pct: u32) -> bool {
    let gap: int = if local > server { local - server } else { 0 };
    server != 0 && gap * 100 > pct * server
}

pub fn should_auto_reconcile(local_count: u32, server_count: u32, threshold_pct: u32) -> (r: bool)
    ensures
        r == auto_reconcile_spec(local_count, server_count, threshold_pct),
{
    if server_count == 0 {
        return false;
    }
    let gap = local_count.saturating_sub(server_count) as u64;
    let pct = threshold_pct as u64;
    let server = server_count as u64;
    assert(pct * server <= 0xffff_ffff * 0xffff_ffff) by (nonlinear_arith)
        requires
            pct <= 0xffff_ffff,
            server <= 0xffff_ffff,
    ;
    let lhs = gap * 100;
    let rhs = pct * server;
    lhs > rhs
}

} // verus!
