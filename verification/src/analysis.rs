//! Track analysis planning and playback-side decisions: which analysis work
//! is still missing, how an enrichment run ends, which server a playback
//! analysis belongs to, its priority, and whether bytes are dispatched.

use vstd::prelude::*;

use crate::text::{chars_of, string_from_chars, trim, trim_chars, trim_string};

verus! {

/// Which analysis facts still need to be computed for the current content.
#[derive(Debug, Clone, Copy, PartialEq, Eq, Structural)]
pub struct TrackEnrichmentPlan {
    pub need_bpm: bool,
    pub need_valence: bool,
    pub need_arousal: bool,
    /// Raw mood scores JSON.
    pub need_moods: bool,
}

impl Default for TrackEnrichmentPlan {
    fn default() -> (r: Self)
        ensures
            !r.need_bpm && !r.need_valence && !r.need_arousal && !r.need_moods,
    {
        TrackEnrichmentPlan { need_bpm: false, need_valence: false, need_arousal: false, need_moods: false }
    }
}

impl TrackEnrichmentPlan {
    pub open spec fn any_spec(self) -> bool {
        self.need_bpm || self.need_valence || self.need_arousal || self.need_moods
    }

    pub fn any(self) -> (r: bool)
        ensures
            r == self.any_spec(),
    {
        self.need_bpm || self.need_valence || self.need_arousal || self.need_moods
    }

    /// The mood detector runs when valence, arousal or mood scores are missing.
    pub fn needs_mood_detection(self) -> (r: bool)
        ensures
            r == (self.need_valence || self.need_arousal || self.need_moods),
    {
        self.need_valence || self.need_arousal || self.need_moods
    }
}

/// What still needs to be computed for a track at the current fingerprint.
#[derive(Debug, Clone, Copy, PartialEq, Eq, Structural)]
pub struct TrackAnalysisPlan {
    /// Waveform bins missing.
    pub need_waveform: bool,
    /// Integrated loudness / true-peak row missing.
    pub need_loudness: bool,
    /// BPM and mood facts.
    pub enrichment: TrackEnrichmentPlan,
}

impl Default for TrackAnalysisPlan {
    fn default() -> (r: Self)
        ensures
            !r.need_waveform && !r.need_loudness && !r.enrichment.any_spec(),
    {
        TrackAnalysisPlan {
            need_waveform: false,
            need_loudness: false,
            enrichment: TrackEnrichmentPlan::default(),
        }
    }
}

impl TrackAnalysisPlan {
    pub fn any(self) -> (r: bool)
        ensures
            r == (self.need_waveform || self.need_loudness || self.enrichment.any_spec()),
    {
        self.need_waveform || self.need_loudness || self.enrichment.any()
    }

    /// Full-file decode (waveform and/or loudness).
    pub fn needs_full_cpu_seed(self) -> (r: bool)
        ensures
            r == (self.need_waveform || self.need_loudness),
    {
        self.need_waveform || self.need_loudness
    }

    /// Enrichment window only: waveform and loudness are already cached.
    pub fn needs_enrichment_only(self) -> (r: bool)
        ensures
            r == (!(self.need_waveform || self.need_loudness) && self.enrichment.any_spec()),
    {
        !self.needs_full_cpu_seed() && self.enrichment.any()
    }
}

#[derive(Debug, Clone, Copy, PartialEq, Eq, Structural)]
pub enum TrackEnrichmentOutcome {
    Applied,
    /// Nothing to compute for the current content hash.
    SkippedComplete,
    /// Analysis or persistence failed; facts were not stored.
    Failed,
    SkippedNoServer,
    SkippedNoPort,
}

/// Event payload announcing fresh enrichment facts for a track.
pub struct EnrichmentUpdatedPayload {
    pub track_id: String,
    pub server_id: String,
}

/// Enrichment needs a server scope and a registered library port.
pub fn enrichment_precheck(server_id: &str, has_port: bool) -> (r: Option<TrackEnrichmentOutcome>)
    ensures
        r == (if server_id@.len() == 0 {
            Some(TrackEnrichmentOutcome::SkippedNoServer)
        } else if !has_port {
            Some(TrackEnrichmentOutcome::SkippedNoPort)
        } else {
            None
        }),
{
    if server_id.unicode_len() == 0 {
        Some(TrackEnrichmentOutcome::SkippedNoServer)
    } else if !has_port {
        Some(TrackEnrichmentOutcome::SkippedNoPort)
    } else {
        None
    }
}

/// Nothing to compute ends the run as complete.
pub fn enrichment_after_plan(plan: TrackEnrichmentPlan) -> (r: Option<TrackEnrichmentOutcome>)
    ensures
        r == (if plan.any_spec() {
            None
        } else {
            Some(TrackEnrichmentOutcome::SkippedComplete)
        }),
{
    if plan.any() {
        None
    } else {
        Some(TrackEnrichmentOutcome::SkippedComplete)
    }
}

/// Outcome of analysing and storing the facts.
pub fn enrichment_result_outcome(stored: bool) -> (r: TrackEnrichmentOutcome)
    ensures
        r == (if stored {
            TrackEnrichmentOutcome::Applied
        } else {
            TrackEnrichmentOutcome::Failed
        }),
{
    if stored {
        TrackEnrichmentOutcome::Applied
    } else {
        TrackEnrichmentOutcome::Failed
    }
}

/// Where playback obtained the bytes.
#[derive(Debug, Clone, Copy, PartialEq, Eq, Structural)]
pub enum TrackAnalysisOrigin {
    InMemoryReplay,
    StreamDownloadComplete,
    LocalFilePlayback,
    StreamSpillFile,
    PrefetchOrCacheFile,
    GaplessChainReady,
    GaplessTransition,
}

/// Size cap for an origin: local-file playback has its own cap, every other
/// origin uses the stream-promotion cap.
pub fn max_bytes_for_origin(origin: TrackAnalysisOrigin, local_file_cap: usize, stream_cap: usize) -> (r:
    usize)
    ensures
        r == (if origin == TrackAnalysisOrigin::LocalFilePlayback {
            local_file_cap
        } else {
            stream_cap
        }),
{
    match origin {
        TrackAnalysisOrigin::LocalFilePlayback => local_file_cap,
        _ => stream_cap,
    }
}

/// Playback server scope: the explicit value when it is not blank
/// (trimmed), else the engine's pinned scope, else empty.
pub fn resolve_analysis_server_id(explicit: Option<&str>, engine_server_id: Option<&str>) -> (r:
    String)
    ensures
        r@ == (match explicit {
            Some(e) if trim(e@).len() > 0 => trim(e@),
            _ => match engine_server_id {
                Some(s) => s@,
                None => Seq::empty(),
            },
        }),
{
    if let Some(e) = explicit {
        let t = trim_chars(&chars_of(e));
        if t.len() > 0 {
            return string_from_chars(&t);
        }
    }
    match engine_server_id {
        Some(s) => String::from_str(s),
        None => String::new(),
    }
}

/// The track id analysis is queued under: the trimmed id, when it is not
/// blank and the payload is non-empty and within the origin's cap.
pub fn analysis_dispatch_target(track_id: &str, byte_len: usize, max_bytes: usize) -> (r: Option<String>)
    ensures
        match r {
            Some(t) => t@ == trim(track_id@) && trim(track_id@).len() > 0 && 0 < byte_len <= max_bytes,
            None => !(trim(track_id@).len() > 0 && 0 < byte_len <= max_bytes),
        },
{
    let t = trim_string(track_id);
    if t.as_str().unicode_len() > 0 && byte_len > 0 && byte_len <= max_bytes {
        Some(t)
    } else {
        None
    }
}

/// Whether analysis runs at high priority: the caller's explicit choice,
/// else whether the track is the backfill's current track or the one
/// playing now.
pub fn resolve_high_priority(explicit: Option<bool>, backfill_current: bool, playback_current: bool) -> (r:
    bool)
    ensures
        r == match explicit {
            Some(b) => b,
            None => backfill_current || playback_current,
        },
{
    match explicit {
        Some(b) => b,
        None => backfill_current || playback_current,
    }
}

/// A queued analysis still runs when it has no generation guard, or when
/// playback is still at the generation it was queued for.
pub fn generation_guard_allows(guard: Option<(u64, u64)>) -> (r: bool)
    ensures
        r == match guard {
            Some((queued, now)) => queued == now,
            None => true,
        },
{
    match guard {
        Some((queued, now)) => queued == now,
        None => true,
    }
}

} // verus!
