//! Hi-res transition blend: when a crossfade, AutoDJ or gapless transition
//! crosses a sample-rate boundary, both tracks are resampled to one rate the
//! user chose. This module holds the decisions of that reopen: the rate, where
//! the outgoing track's bytes come from, the format hint of its URL and the
//! engine slots a reopen clears.

use vstd::prelude::*;
use crate::text::{
    chars_of, lemma_split_char_nonempty, occurs_at_exec, split_char, split_chars, str_eq,
    string_from_chars,
};

verus! {

/// Hi-res blend rate chosen by the user; `None` when blending is inactive.
/// Unsupported rates fall back to 44.1 kHz.
pub fn blend_rate_hz(hi_res_enabled: bool, transition_blend_active: bool, hz: Option<u32>) -> (r:
    Option<u32>)
    ensures
        r == (if !hi_res_enabled || !transition_blend_active {
            None::<u32>
        } else {
            match hz {
                Some(h) => if h == 44100 || h == 88200 || h == 96000 {
                    Some(h)
                } else {
                    Some(44100u32)
                },
                None => Some(44100u32),
            }
        }),
{
    if !hi_res_enabled || !transition_blend_active {
        return None;
    }
    let raw = match hz {
        Some(h) => h,
        None => 44100,
    };
    if raw == 44100 || raw == 88200 || raw == 96000 {
        Some(raw)
    } else {
        Some(44100)
    }
}

/// The URL a blend reopen snapshots the outgoing track from: only a track
/// that is playing (it has a sink and is not paused) with a non-empty URL is
/// rebuilt.
pub fn blend_snapshot_url(url: Option<&str>, has_sink: bool, paused: bool) -> (r: Option<String>)
    ensures
        match url {
            Some(u) if u@.len() > 0 && has_sink && !paused => r is Some && r->0@ == u@,
            _ => r is None,
        },
{
    match url {
        Some(u) => {
            if u.unicode_len() == 0 || !has_sink || paused {
                None
            } else {
                Some(String::from_str(u))
            }
        },
        None => None,
    }
}

/// Scheme of local-file playback URLs.
pub const LOCAL_URL_PREFIX: &'static str = "psysonic-local://";

/// Where a blend reopen finds the bytes of a track.
#[derive(Debug, Clone, PartialEq, Eq)]
pub enum CachedInput {
    /// A local file at this path.
    LocalFile(String),
    /// The completed in-memory stream download.
    Ram,
    /// The completed stream spilled to disk.
    Spill,
    /// Not cached: the track cannot be rebuilt.
    Missing,
}

pub open spec fn cached_input_spec(url: Seq<char>, ram_url: Option<Seq<char>>, spill_url: Option<Seq<char>>) -> (
    int,
    Seq<char>,
) {
    let p = "psysonic-local://"@;
    if p.len() <= url.len() && url.subrange(0, p.len() as int) == p {
        (0, url.subrange(p.len() as int, url.len() as int))
    } else if ram_url == Some(url) {
        (1, Seq::empty())
    } else if spill_url == Some(url) {
        (2, Seq::empty())
    } else {
        (3, Seq::empty())
    }
}

pub open spec fn cached_input_view(c: CachedInput) -> (int, Seq<char>) {
    match c {
        CachedInput::LocalFile(p) => (0, p@),
        CachedInput::Ram => (1, Seq::empty()),
        CachedInput::Spill => (2, Seq::empty()),
        CachedInput::Missing => (3, Seq::empty()),
    }
}

/// Local-file URLs read their file; otherwise the completed download of
/// the same URL is used, from memory first, then from its spill file.
/// `ram_url` and `spill_url` are the URLs those caches hold, if any.
pub fn cached_input_source(url: &str, ram_url: Option<&str>, spill_url: Option<&str>) -> (r: CachedInput)
    ensures
        cached_input_view(r) == cached_input_spec(
            url@,
            match ram_url {
                Some(u) => Some(u@),
                None => None,
            },
            match spill_url {
                Some(u) => Some(u@),
                None => None,
            },
        ),
{
    let cs = chars_of(url);
    let p = chars_of(LOCAL_URL_PREFIX);
    proof {
        reveal_strlit("psysonic-local://");
    }
    if occurs_at_exec(&cs, &p, 0) {
        let mut rest: Vec<char> = Vec::new();
        let mut j: usize = p.len();
        while j < cs.len()
            invariant
                p@.len() <= j <= cs@.len(),
                rest@ == cs@.subrange(p@.len() as int, j as int),
            decreases cs.len() - j,
        {
            rest.push(cs[j]);
            assert(rest@ =~= cs@.subrange(p@.len() as int, j + 1));
            j += 1;
        }
        return CachedInput::LocalFile(string_from_chars(&rest));
    }
    if let Some(u) = ram_url {
        if str_eq(u, url) {
            return CachedInput::Ram;
        }
    }
    if let Some(u) = spill_url {
        if str_eq(u, url) {
            return CachedInput::Spill;
        }
    }
    CachedInput::Missing
}

/// The error a reopen reports when the track it must rebuild is not
/// cached: the outgoing track of a blend, or the current track of a
/// gapless realign.
pub fn not_cached_message(outgoing: bool, url: &str) -> (r: String)
    ensures
        r@ == (if outgoing {
            "[hi-res-blend] outgoing track not cached for blend reopen: "@
        } else {
            "[hi-res-blend] current track not cached for gapless realign: "@
        }) + url@,
{
    if outgoing {
        String::from_str("[hi-res-blend] outgoing track not cached for blend reopen: ").concat(url)
    } else {
        String::from_str("[hi-res-blend] current track not cached for gapless realign: ").concat(url)
    }
}

/// `str::to_lowercase`: full Unicode lowercasing.
pub uninterp spec fn unicode_lower(s: Seq<char>) -> Seq<char>;

/// Calls `str::to_lowercase`; its result depends on the text alone.
#[verifier::external_body]
fn to_lowercase(s: &str) -> (r: String)
    ensures
        r@ == unicode_lower(s@),
{
    s.to_lowercase()
}

pub open spec fn format_suffix_spec(url: Seq<char>) -> Seq<char> {
    unicode_lower(split_char(split_char(url, '.').last(), '?')[0])
}

/// The stream format suffix of a URL: what follows its last `.`, up to the
/// first `?`, lowercased.
pub fn stream_format_suffix(url: &str) -> (r: String)
    ensures
        r@ == format_suffix_spec(url@),
{
    let cs = chars_of(url);
    let dots = split_chars(&cs, '.');
    proof {
        lemma_split_char_nonempty(url@, '.');
    }
    let last = &dots[dots.len() - 1];
    let qs = split_chars(last, '?');
    proof {
        lemma_split_char_nonempty(last@, '?');
    }
    let head = string_from_chars(&qs[0]);
    to_lowercase(head.as_str())
}

/// The slots of the main playback a blend reopen clears: the sink and its
/// fade-out trigger and sample budget.
pub struct CurrentSinkSlots<S, T, U> {
    pub sink: Option<S>,
    pub fadeout_trigger: Option<T>,
    pub fadeout_samples: Option<U>,
}

/// Detach the live main sink so a stream reopen leaves no dangling player.
/// The caller stops the returned sink.
pub fn detach_current_sink_for_blend_reopen<S, T, U>(cur: &mut CurrentSinkSlots<S, T, U>) -> (r: Option<S>)
    ensures
        r == old(cur).sink,
        final(cur).sink is None,
        final(cur).fadeout_trigger is None,
        final(cur).fadeout_samples is None,
{
    let old = cur.sink.take();
    cur.fadeout_trigger = None;
    cur.fadeout_samples = None;
    old
}

} // verus!
