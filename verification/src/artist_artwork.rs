//! Rows of the external artist-artwork lookup table: the resolution state of
//! one `(server, artist, surface)` lookup.

use vstd::prelude::*;

verus! {

/// One artist-artwork lookup row; the `(server_id, artist_id, surface_kind)`
/// key is implied by the lookup.
#[derive(Debug, Clone, PartialEq, Eq)]
pub struct ArtistArtworkRow {
    pub mbid: Option<String>,
    pub mbid_source: Option<String>,
    pub status: String,
    pub provider: Option<String>,
    pub updated_at: i64,
}

} // verus!
