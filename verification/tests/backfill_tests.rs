use psysonic::cover_backfill::{
    pass_step, pipeline_http_stats, pulse_dto, schedule_after_sync_idle, session_matches_server,
    session_still_focused, should_clear_fetch_failures, sync_allows_cover_backfill,
    sync_wait_step, AfterBatch, BackfillPass, CoverBackfillRunDto, CoverBackfillSession, PassStep,
    SyncWait, BATCH_SIZE, LIBRARY_BACKFILL_PARALLEL, PENDING_RESTART_THRESHOLD,
    PROGRESS_EVERY_BATCHES,
};

fn session(index_key: &str, library_id: &str) -> CoverBackfillSession {
    CoverBackfillSession {
        server_index_key: index_key.to_string(),
        library_server_id: library_id.to_string(),
        rest_base_url: "https://srv".to_string(),
        username: "u".to_string(),
        password: "p".to_string(),
    }
}

#[test]
fn session_matches_either_server_id() {
    let s = session("idx", "lib");
    assert!(session_matches_server(&s, "idx"));
    assert!(session_matches_server(&s, "lib"));
    assert!(!session_matches_server(&s, "other"));
}

#[test]
fn sync_phase_gate() {
    assert!(!sync_allows_cover_backfill(Some("initial_sync")));
    assert!(!sync_allows_cover_backfill(Some("probing")));
    assert!(sync_allows_cover_backfill(Some("idle")));
    assert!(sync_allows_cover_backfill(None));
    assert_eq!(sync_wait_step(true, false), SyncWait::Proceed);
    assert_eq!(sync_wait_step(false, false), SyncWait::Abort);
    assert_eq!(sync_wait_step(false, true), SyncWait::Wait);
}

#[test]
fn focus_and_idle_scheduling() {
    let s = session("idx", "lib");
    let other = session("idx2", "lib");
    assert!(session_still_focused(true, Some(&s), &s));
    assert!(!session_still_focused(false, Some(&s), &s));
    assert!(!session_still_focused(true, None, &s));
    assert!(!session_still_focused(true, Some(&other), &s));
    assert!(schedule_after_sync_idle(true, true, Some(&s), "lib"));
    assert!(!schedule_after_sync_idle(false, true, Some(&s), "lib"));
    assert!(!schedule_after_sync_idle(true, false, Some(&s), "lib"));
    assert!(!schedule_after_sync_idle(true, true, None, "lib"));
    assert!(!schedule_after_sync_idle(true, true, Some(&s), "zzz"));
}

#[test]
fn http_stats_count_busy_slots() {
    assert_eq!(pipeline_http_stats(2, false), (LIBRARY_BACKFILL_PARALLEL, 0, false));
    assert_eq!(pipeline_http_stats(1, true), (2, 1, true));
    assert_eq!(pipeline_http_stats(0, true), (2, 2, true));
    assert_eq!(pipeline_http_stats(5, false), (2, 0, false));
}

#[test]
fn pulse_answers() {
    let active = pulse_dto(true);
    assert_eq!(active.status, "active");
    assert!(!active.exhausted);
    let disabled = pulse_dto(false);
    assert_eq!(disabled.status, "disabled");
    assert!(disabled.exhausted);
    assert_eq!(disabled.pending + disabled.done + disabled.total, 0);
    assert_eq!(disabled.scheduled, 0);
    assert_eq!(CoverBackfillRunDto { started: true }.started, true);
}

#[test]
fn pass_steps() {
    assert_eq!(pass_step(false, false, "c"), PassStep::Stop);
    assert_eq!(pass_step(true, true, "c"), PassStep::PauseForUi);
    assert_eq!(pass_step(true, false, ""), PassStep::Fetch(None));
    assert_eq!(pass_step(true, false, "next"), PassStep::Fetch(Some("next".to_string())));
}

#[test]
fn batches_report_progress_every_eighth_and_finish_when_exhausted() {
    let mut pass = BackfillPass::start();
    for _ in 0..(PROGRESS_EVERY_BATCHES - 1) {
        assert!(pass.record_batch(true));
        assert_eq!(
            pass.after_batch(false, false, false, Some("c".to_string())),
            AfterBatch::Advance { next_cursor: Some("c".to_string()), emit_progress: false }
        );
    }
    assert!(pass.record_batch(true));
    assert_eq!(
        pass.after_batch(false, false, true, None),
        AfterBatch::Finish { emit_progress: true }
    );
    assert_eq!(pass.after_batch(true, false, true, None), AfterBatch::PauseForUi);
    assert_eq!(pass.after_batch(false, true, false, None), AfterBatch::PauseForUi);
    assert!(!pass.record_batch(false));
    assert_eq!(pass.batch_count, PROGRESS_EVERY_BATCHES + 1);
}

#[test]
fn failures_clear_only_above_threshold() {
    assert!(!should_clear_fetch_failures(PENDING_RESTART_THRESHOLD));
    assert!(should_clear_fetch_failures(PENDING_RESTART_THRESHOLD + 1));
    assert_eq!(BATCH_SIZE, 24);
}
