use psysonic::sync::{chunk_step, ChunkStep};
use psysonic::sync::{
    is_retryable, probe_outcome, should_auto_reconcile, should_retry, CursorPhase,
    InitialSyncCursor, IngestStrategy, ProbeOutcome, StrategyState, SyncErrorKind, TombstoneAction,
    TombstoneReport, MAX_ATTEMPTS_PER_BATCH,
};

#[test]
fn fresh_n1_starts_at_offset_zero() {
    let c = InitialSyncCursor::fresh(IngestStrategy::N1, None);
    assert_eq!(c.phase, CursorPhase::Ingest);
    assert_eq!(c.ingested_count, 0);
    match c.strategy_state {
        StrategyState::LinearOffset { offset } => assert_eq!(offset, 0),
        other => panic!("expected LinearOffset, got {other:?}"),
    }
}

#[test]
fn fresh_s2_uses_album_crawl_state() {
    let c = InitialSyncCursor::fresh(IngestStrategy::S2, Some("lib-1".into()));
    assert_eq!(c.library_scope.as_deref(), Some("lib-1"));
    match c.strategy_state {
        StrategyState::AlbumCrawl { album_offset, current_album_id } => {
            assert_eq!(album_offset, 0);
            assert!(current_album_id.is_none());
        }
        other => panic!("expected AlbumCrawl, got {other:?}"),
    }
}

#[test]
fn threshold_fires_when_local_outpaces_server_above_pct() {
    assert!(should_auto_reconcile(110, 100, 5));
}

#[test]
fn threshold_stays_silent_within_tolerance() {
    assert!(!should_auto_reconcile(102, 100, 5));
}

#[test]
fn threshold_silent_when_local_is_below_or_equal_server() {
    assert!(!should_auto_reconcile(100, 100, 0));
    assert!(!should_auto_reconcile(50, 100, 5));
}

#[test]
fn threshold_silent_when_server_count_is_zero() {
    assert!(!should_auto_reconcile(1000, 0, 5));
}

#[test]
fn threshold_is_strictly_greater_and_saturates() {
    assert!(!should_auto_reconcile(105, 100, 5));
    assert!(should_auto_reconcile(106, 100, 5));
    assert!(should_auto_reconcile(u32::MAX, 1, 100));
}

#[test]
fn fresh_cursor_tags_and_states() {
    let c = InitialSyncCursor::fresh(IngestStrategy::S1, None);
    assert_eq!(c.strategy_tag(), "s1");
    assert_eq!(c.strategy_state, StrategyState::LinearOffset { offset: 0 });
    let c = InitialSyncCursor::fresh(IngestStrategy::S3, None);
    assert_eq!(c.strategy_tag(), "s3");
    assert_eq!(c.strategy_state, StrategyState::Empty);
    assert_eq!(c.resync_gen, None);
    assert_eq!(InitialSyncCursor::fresh(IngestStrategy::N1, None).strategy, "n1");
    assert_eq!(InitialSyncCursor::fresh(IngestStrategy::S2, None).strategy, "s2");
}

#[test]
fn probes_count_checked_and_deleted() {
    let mut report = TombstoneReport::default();
    assert_eq!(report.record_probe(ProbeOutcome::Present), TombstoneAction::MarkSynced);
    assert_eq!(report.record_probe(ProbeOutcome::NotFound), TombstoneAction::MarkDeleted);
    assert_eq!(report.record_probe(ProbeOutcome::NotFound), TombstoneAction::MarkDeleted);
    assert_eq!(report.record_probe(ProbeOutcome::Failed), TombstoneAction::Abort);
    assert_eq!(report, TombstoneReport { checked: 4, deleted: 2 });
    assert!(report.deleted <= report.checked);
}

#[test]
fn probe_counts_saturate() {
    let mut report = TombstoneReport { checked: u32::MAX, deleted: u32::MAX };
    report.record_probe(ProbeOutcome::NotFound);
    assert_eq!(report, TombstoneReport { checked: u32::MAX, deleted: u32::MAX });
}

#[test]
fn probe_outcomes_and_retries() {
    assert_eq!(probe_outcome(None), ProbeOutcome::Present);
    assert_eq!(probe_outcome(Some(SyncErrorKind::NotFound)), ProbeOutcome::NotFound);
    assert_eq!(probe_outcome(Some(SyncErrorKind::Transport)), ProbeOutcome::Failed);
    assert!(is_retryable(SyncErrorKind::Transport));
    assert!(is_retryable(SyncErrorKind::Navidrome));
    assert!(!is_retryable(SyncErrorKind::NotFound));
    assert!(!is_retryable(SyncErrorKind::Cancelled));
    assert!(should_retry(1, true));
    assert!(should_retry(MAX_ATTEMPTS_PER_BATCH - 1, true));
    assert!(!should_retry(MAX_ATTEMPTS_PER_BATCH, true));
    assert!(!should_retry(1, false));
}

#[test]
fn auto_reconcile_counts_a_fractional_percent_gap() {
    // A 5.5% gap exceeds a 5% threshold.
    assert!(should_auto_reconcile(1055, 1000, 5));
    assert!(!should_auto_reconcile(1050, 1000, 5));
    assert!(!should_auto_reconcile(10, 0, 5));
}

#[test]
fn chunk_step_reads_then_probes_until_done() {
    assert_eq!(chunk_step(0, None, 0, false), ChunkStep::Finish);
    assert_eq!(chunk_step(0, Some(3), 0, true), ChunkStep::Finish);
    assert_eq!(chunk_step(5, None, 0, true), ChunkStep::ReadCandidates);
    assert_eq!(chunk_step(5, Some(2), 0, false), ChunkStep::Probe);
    assert_eq!(chunk_step(5, Some(2), 1, true), ChunkStep::Cancel);
    assert_eq!(chunk_step(5, Some(2), 2, true), ChunkStep::Finish);
}
