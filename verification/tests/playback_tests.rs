use psysonic::analysis::{
    analysis_dispatch_target, enrichment_after_plan, enrichment_precheck,
    enrichment_result_outcome, generation_guard_allows, max_bytes_for_origin,
    resolve_analysis_server_id, resolve_high_priority, TrackAnalysisOrigin, TrackAnalysisPlan,
    TrackEnrichmentOutcome, TrackEnrichmentPlan,
};
use psysonic::hi_res_blend::{
    blend_rate_hz, blend_snapshot_url, cached_input_source, detach_current_sink_for_blend_reopen, not_cached_message,
    stream_format_suffix, CachedInput, CurrentSinkSlots,
};

#[test]
fn blend_rate_inactive_without_hi_res_or_transition() {
    assert_eq!(blend_rate_hz(false, true, Some(96_000)), None);
    assert_eq!(blend_rate_hz(true, false, Some(96_000)), None);
}

#[test]
fn blend_rate_sanitizes_hz() {
    assert_eq!(blend_rate_hz(true, true, None), Some(44_100));
    assert_eq!(blend_rate_hz(true, true, Some(88_200)), Some(88_200));
    assert_eq!(blend_rate_hz(true, true, Some(48_000)), Some(44_100));
}

#[test]
fn blend_rate_keeps_96k() {
    assert_eq!(blend_rate_hz(true, true, Some(96_000)), Some(96_000));
}

#[test]
fn cached_input_prefers_local_then_ram_then_spill() {
    assert_eq!(
        cached_input_source("psysonic-local:///music/a.flac", None, None),
        CachedInput::LocalFile("/music/a.flac".to_string())
    );
    let url = "https://srv/stream?id=1";
    assert_eq!(cached_input_source(url, Some(url), Some(url)), CachedInput::Ram);
    assert_eq!(cached_input_source(url, Some("other"), Some(url)), CachedInput::Spill);
    assert_eq!(cached_input_source(url, Some("other"), None), CachedInput::Missing);
    assert_eq!(cached_input_source(url, None, None), CachedInput::Missing);
}

#[test]
fn not_cached_messages_name_the_url() {
    assert_eq!(
        not_cached_message(true, "u"),
        "[hi-res-blend] outgoing track not cached for blend reopen: u"
    );
    assert_eq!(
        not_cached_message(false, "u"),
        "[hi-res-blend] current track not cached for gapless realign: u"
    );
}

#[test]
fn format_suffix_reads_extension_before_query() {
    assert_eq!(stream_format_suffix("https://srv/song.FLAC?x=1"), "flac");
    assert_eq!(stream_format_suffix("/a/b.mp3"), "mp3");
    assert_eq!(stream_format_suffix("noext"), "noext");
    assert_eq!(stream_format_suffix("a.b?c.d"), "d");
}

#[test]
fn detach_clears_slots_and_hands_back_sink() {
    let mut slots: CurrentSinkSlots<&str, u8, u64> = CurrentSinkSlots {
        sink: Some("player"),
        fadeout_trigger: Some(1),
        fadeout_samples: Some(42),
    };
    assert_eq!(detach_current_sink_for_blend_reopen(&mut slots), Some("player"));
    assert!(slots.sink.is_none());
    assert!(slots.fadeout_trigger.is_none());
    assert!(slots.fadeout_samples.is_none());
    assert_eq!(detach_current_sink_for_blend_reopen(&mut slots), None);
}

#[test]
fn analysis_plan_predicates() {
    let enrichment = TrackEnrichmentPlan { need_bpm: true, need_valence: false, need_arousal: false, need_moods: false };
    let plan = TrackAnalysisPlan { need_waveform: false, need_loudness: false, enrichment };
    assert!(plan.any());
    assert!(!plan.needs_full_cpu_seed());
    assert!(plan.needs_enrichment_only());
    assert!(!enrichment.needs_mood_detection());
    let full = TrackAnalysisPlan { need_waveform: true, need_loudness: false, enrichment };
    assert!(full.needs_full_cpu_seed());
    assert!(!full.needs_enrichment_only());
    assert!(!TrackAnalysisPlan::default().any());
    assert!(!TrackEnrichmentPlan::default().any());
}

#[test]
fn enrichment_steps() {
    assert_eq!(enrichment_precheck("", true), Some(TrackEnrichmentOutcome::SkippedNoServer));
    assert_eq!(enrichment_precheck("s1", false), Some(TrackEnrichmentOutcome::SkippedNoPort));
    assert_eq!(enrichment_precheck("s1", true), None);
    assert_eq!(
        enrichment_after_plan(TrackEnrichmentPlan::default()),
        Some(TrackEnrichmentOutcome::SkippedComplete)
    );
    let plan = TrackEnrichmentPlan { need_bpm: false, need_valence: false, need_arousal: false, need_moods: true };
    assert_eq!(enrichment_after_plan(plan), None);
    assert_eq!(enrichment_result_outcome(true), TrackEnrichmentOutcome::Applied);
    assert_eq!(enrichment_result_outcome(false), TrackEnrichmentOutcome::Failed);
}

#[test]
fn dispatch_rules() {
    assert_eq!(max_bytes_for_origin(TrackAnalysisOrigin::LocalFilePlayback, 10, 20), 10);
    assert_eq!(max_bytes_for_origin(TrackAnalysisOrigin::GaplessTransition, 10, 20), 20);
    assert_eq!(analysis_dispatch_target("  t1 ", 5, 10), Some("t1".to_string()));
    assert_eq!(analysis_dispatch_target("   ", 5, 10), None);
    assert_eq!(analysis_dispatch_target("t1", 0, 10), None);
    assert_eq!(analysis_dispatch_target("t1", 11, 10), None);
    assert_eq!(analysis_dispatch_target("t1", 10, 10), Some("t1".to_string()));
    assert!(generation_guard_allows(None));
    assert!(generation_guard_allows(Some((3, 3))));
    assert!(!generation_guard_allows(Some((3, 4))));
}

#[test]
fn server_scope_and_priority() {
    assert_eq!(resolve_analysis_server_id(Some("  s1 "), Some("s2")), "s1");
    assert_eq!(resolve_analysis_server_id(Some("   "), Some("s2")), "s2");
    assert_eq!(resolve_analysis_server_id(None, None), "");
    assert!(resolve_high_priority(Some(true), false, false));
    assert!(!resolve_high_priority(Some(false), true, true));
    assert!(resolve_high_priority(None, false, true));
    assert!(!resolve_high_priority(None, false, false));
}

#[test]
fn blend_snapshot_needs_a_playing_track_with_url() {
    assert_eq!(blend_snapshot_url(Some("u"), true, false), Some("u".to_string()));
    assert_eq!(blend_snapshot_url(Some(""), true, false), None);
    assert_eq!(blend_snapshot_url(None, true, false), None);
    assert_eq!(blend_snapshot_url(Some("u"), false, false), None);
    assert_eq!(blend_snapshot_url(Some("u"), true, true), None);
}
