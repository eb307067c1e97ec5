//! Album and artist records an advanced search returns, and the pages it
//! builds from full-text matches over tracks when the album or artist
//! tables are empty.

use vstd::prelude::*;
use crate::advanced_search::{dedupe_page, dedupe_rows_spec, page_of};
use crate::json::JsonValue;
use crate::text::views;

verus! {

/// An album as a search result.
#[derive(Debug)]
pub struct LibraryAlbumDto {
    pub server_id: String,
    pub id: String,
    pub name: String,
    pub artist: Option<String>,
    pub artist_id: Option<String>,
    pub song_count: Option<i64>,
    pub duration_sec: Option<i64>,
    pub year: Option<i64>,
    pub genre: Option<String>,
    pub cover_art_id: Option<String>,
    pub starred_at: Option<i64>,
    pub synced_at: i64,
    pub raw_json: JsonValue,
}

/// An artist as a search result.
#[derive(Debug)]
pub struct LibraryArtistDto {
    pub server_id: String,
    pub id: String,
    pub name: String,
    pub album_count: Option<i64>,
    pub synced_at: i64,
    pub raw_json: JsonValue,
}

/// A track row matched by full-text search, read for its album.
#[derive(Debug)]
pub struct AlbumFtsRow {
    pub server_id: String,
    pub album_id: String,
    pub album: String,
    pub artist: Option<String>,
    pub artist_id: Option<String>,
    pub year: Option<i64>,
    pub genre: Option<String>,
    pub cover_art_id: Option<String>,
    pub starred_at: Option<i64>,
    pub synced_at: i64,
}

/// A track row matched by full-text search, read for its artist.
#[derive(Debug)]
pub struct ArtistFtsRow {
    pub server_id: String,
    pub artist_id: String,
    pub artist: Option<String>,
    pub synced_at: i64,
}

/// The album a matched track row stands for: the track's album fields,
/// with no song count, no duration and a null raw document.
pub open spec fn album_of_row(r: AlbumFtsRow) -> LibraryAlbumDto {
    LibraryAlbumDto {
        server_id: r.server_id,
        id: r.album_id,
        name: r.album,
        artist: r.artist,
        artist_id: r.artist_id,
        song_count: None,
        duration_sec: None,
        year: r.year,
        genre: r.genre,
        cover_art_id: r.cover_art_id,
        starred_at: r.starred_at,
        synced_at: r.synced_at,
        raw_json: JsonValue::Null,
    }
}

/// Whether `d` is the artist a matched track row stands for: its name is
/// the track's artist or empty, with no album count and a null raw document.
pub open spec fn is_artist_of_row(d: LibraryArtistDto, r: ArtistFtsRow) -> bool {
    &&& d.server_id == r.server_id
    &&& d.id == r.artist_id
    &&& d.name@ == (match r.artist {
        Some(a) => a@,
        None => Seq::<char>::empty(),
    })
    &&& d.album_count is None
    &&& d.synced_at == r.synced_at
    &&& d.raw_json is Null
}

pub open spec fn album_row_keys(rows: Seq<AlbumFtsRow>) -> Seq<Seq<char>> {
    rows.map_values(|r: AlbumFtsRow| r.album_id@)
}

pub open spec fn artist_row_keys(rows: Seq<ArtistFtsRow>) -> Seq<Seq<char>> {
    rows.map_values(|r: ArtistFtsRow| r.artist_id@)
}

/// How many distinct records the scan keeps: `limit + offset`, saturated.
pub open spec fn fts_need(limit: u32, offset: u32) -> nat {
    if limit + offset > u32::MAX {
        u32::MAX as nat
    } else {
        (limit + offset) as nat
    }
}

/// The album page of a full-text match: the first row of each album, in
/// row order, at most `fts_need` albums, then `offset` in and `limit` long.
pub open spec fn album_fts_page_spec(rows: Seq<AlbumFtsRow>, limit: u32, offset: u32) -> Seq<LibraryAlbumDto> {
    page_of(dedupe_rows_spec(album_row_keys(rows), fts_need(limit, offset)), offset as nat, limit as nat).map_values(
        |i: int| album_of_row(rows[i]),
    )
}

/// The positions of the rows an artist page is built from, in page order.
pub open spec fn artist_fts_picks(rows: Seq<ArtistFtsRow>, limit: u32, offset: u32) -> Seq<int> {
    page_of(dedupe_rows_spec(artist_row_keys(rows), fts_need(limit, offset)), offset as nat, limit as nat)
}

fn copy_text(o: &Option<String>) -> (r: Option<String>)
    ensures
        r == *o,
{
    match o {
        Some(s) => Some(s.clone()),
        None => None,
    }
}

/// The album record of one matched track row.
pub fn album_from_fts_row(row: &AlbumFtsRow) -> (d: LibraryAlbumDto)
    ensures
        d == album_of_row(*row),
{
    LibraryAlbumDto {
        server_id: row.server_id.clone(),
        id: row.album_id.clone(),
        name: row.album.clone(),
        artist: copy_text(&row.artist),
        artist_id: copy_text(&row.artist_id),
        song_count: None,
        duration_sec: None,
        year: row.year,
        genre: copy_text(&row.genre),
        cover_art_id: copy_text(&row.cover_art_id),
        starred_at: row.starred_at,
        synced_at: row.synced_at,
        raw_json: JsonValue::Null,
    }
}

/// The artist record of one matched track row.
pub fn artist_from_fts_row(row: &ArtistFtsRow) -> (d: LibraryArtistDto)
    ensures
        is_artist_of_row(d, *row),
{
    let name = match &row.artist {
        Some(a) => a.clone(),
        None => String::new(),
    };
    LibraryArtistDto {
        server_id: row.server_id.clone(),
        id: row.artist_id.clone(),
        name,
        album_count: None,
        synced_at: row.synced_at,
        raw_json: JsonValue::Null,
    }
}


fn album_keys(rows: &Vec<AlbumFtsRow>) -> (keys: Vec<String>)
    ensures
        views(keys@) == album_row_keys(rows@),
{
    let mut keys: Vec<String> = Vec::new();
    let mut i: usize = 0;
    while i < rows.len()
        invariant
            i <= rows@.len(),
            views(keys@) == album_row_keys(rows@.take(i as int)),
        decreases rows.len() - i,
    {
        keys.push(rows[i].album_id.clone());
        proof {
            assert(album_row_keys(rows@.take(i + 1)) =~= album_row_keys(rows@.take(i as int)).push(
                rows@[i as int].album_id@,
            ));
            assert(views(keys@) =~= album_row_keys(rows@.take(i + 1)));
        }
        i += 1;
    }
    proof {
        assert(rows@.take(i as int) =~= rows@);
    }
    keys
}

fn artist_keys(rows: &Vec<ArtistFtsRow>) -> (keys: Vec<String>)
    ensures
        views(keys@) == artist_row_keys(rows@),
{
    let mut keys: Vec<String> = Vec::new();
    let mut i: usize = 0;
    while i < rows.len()
        invariant
            i <= rows@.len(),
            views(keys@) == artist_row_keys(rows@.take(i as int)),
        decreases rows.len() - i,
    {
        keys.push(rows[i].artist_id.clone());
        proof {
            assert(artist_row_keys(rows@.take(i + 1)) =~= artist_row_keys(rows@.take(i as int)).push(
                rows@[i as int].artist_id@,
            ));
            assert(views(keys@) =~= artist_row_keys(rows@.take(i + 1)));
        }
        i += 1;
    }
    proof {
        assert(rows@.take(i as int) =~= rows@);
    }
    keys
}

fn need_of(limit: u32, offset: u32) -> (n: u32)
    ensures
        n as nat == fts_need(limit, offset),
{
    if limit > u32::MAX - offset {
        u32::MAX
    } else {
        limit + offset
    }
}

/// The album page of a full-text match over tracks: one album per distinct
/// album id (its first row), the scan stopping at `limit + offset` albums;
/// the page skips `offset` and holds at most `limit`; the total counts the
/// albums kept, or is 0 when totals are skipped.
pub fn album_fts_page(rows: &Vec<AlbumFtsRow>, limit: u32, offset: u32, skip_totals: bool) -> (r: (
    Vec<LibraryAlbumDto>,
    u32,
))
    ensures
        r.0@ == album_fts_page_spec(rows@, limit, offset),
        r.1 == (if skip_totals {
            0
        } else {
            dedupe_rows_spec(album_row_keys(rows@), fts_need(limit, offset)).len()
        }),
{
    let keys = album_keys(rows);
    let (picks, total) = dedupe_page(&keys, need_of(limit, offset), offset, limit, skip_totals);
    let ghost picked = page_of(
        dedupe_rows_spec(album_row_keys(rows@), fts_need(limit, offset)),
        offset as nat,
        limit as nat,
    );
    assert(picks@.map_values(|i: usize| i as int) == picked);
    let mut page: Vec<LibraryAlbumDto> = Vec::new();
    let mut j: usize = 0;
    while j < picks.len()
        invariant
            j <= picks@.len(),
            keys@.len() == rows@.len(),
            forall|k: int| 0 <= k < picks@.len() ==> #[trigger] picks@[k] < keys@.len(),
            picks@.map_values(|i: usize| i as int) == picked,
            page@ == picked.take(j as int).map_values(|i: int| album_of_row(rows@[i])),
        decreases picks.len() - j,
    {
        assert(picks@[j as int] < keys@.len());
        let d = album_from_fts_row(&rows[picks[j]]);
        page.push(d);
        proof {
            assert(picked[j as int] == picks@[j as int] as int);
            assert(picked.take(j + 1).map_values(|i: int| album_of_row(rows@[i])) =~= picked.take(
                j as int,
            ).map_values(|i: int| album_of_row(rows@[i])).push(album_of_row(rows@[picked[j as int]])));
        }
        j += 1;
    }
    proof {
        assert(picked.take(j as int) =~= picked);
    }
    (page, total)
}

/// The artist page of a full-text match over tracks, built as the album
/// page is: one artist per distinct artist id, named by its first row.
pub fn artist_fts_page(rows: &Vec<ArtistFtsRow>, limit: u32, offset: u32, skip_totals: bool) -> (r: (
    Vec<LibraryArtistDto>,
    u32,
))
    ensures
        r.0@.len() == artist_fts_picks(rows@, limit, offset).len(),
        forall|k: int|
            0 <= k < r.0@.len() ==> is_artist_of_row(
                #[trigger] r.0@[k],
                rows@[artist_fts_picks(rows@, limit, offset)[k]],
            ),
        r.1 == (if skip_totals {
            0
        } else {
            dedupe_rows_spec(artist_row_keys(rows@), fts_need(limit, offset)).len()
        }),
{
    let keys = artist_keys(rows);
    let (picks, total) = dedupe_page(&keys, need_of(limit, offset), offset, limit, skip_totals);
    let ghost picked = artist_fts_picks(rows@, limit, offset);
    assert(picks@.map_values(|i: usize| i as int) == picked);
    let mut page: Vec<LibraryArtistDto> = Vec::new();
    let mut j: usize = 0;
    while j < picks.len()
        invariant
            j <= picks@.len(),
            keys@.len() == rows@.len(),
            forall|k: int| 0 <= k < picks@.len() ==> #[trigger] picks@[k] < keys@.len(),
            picks@.map_values(|i: usize| i as int) == picked,
            page@.len() == j,
            forall|k: int| 0 <= k < j ==> is_artist_of_row(#[trigger] page@[k], rows@[picked[k]]),
        decreases picks.len() - j,
    {
        assert(picks@[j as int] < keys@.len());
        let d = artist_from_fts_row(&rows[picks[j]]);
        page.push(d);
        proof {
            assert(picked[j as int] == picks@[j as int] as int);
        }
        j += 1;
    }
    (page, total)
}

} // verus!
