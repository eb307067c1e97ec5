//! Verified core of the Psysonic music library: the filter registry and the
//! SQL an advanced search is built from and the pages it returns, JSON
//! documents, mood and genre tag handling,
//! cross-server track identity, the log ring buffer, sync cursors and
//! tombstone bookkeeping, the cover-backfill pass, and the playback-side
//! analysis and hi-res blend decisions.

pub mod advanced_search;
pub mod advanced_search_mood;
pub mod album_compilation_filter;
pub mod artist_artwork;
pub mod analysis;
pub mod canonical;
pub mod cover_backfill;
pub mod filter;
pub mod genre_tags;
pub mod hi_res_blend;
pub mod json;
pub mod logging;
pub mod mood_groups;
pub mod search_rows;
pub mod sync;
pub mod text;
