//! Advanced search against an in-memory SQLite store: the library builds
//! the queries, the tests run them.

use psysonic::advanced_search::{
    bind_params, build_album_table_query, build_track_query, count_query, count_total, page_query,
    plan_advanced_search, ClauseValue, LibraryAdvancedSearchRequest, LibraryFilterClause,
    LibrarySortClause, SearchSql, SortDir,
};
use psysonic::filter::{EntityKind, FilterOp, SqlValue};
use rusqlite::types::Value;
use rusqlite::Connection;

fn store() -> Connection {
    let conn = Connection::open_in_memory().unwrap();
    conn.execute_batch(
        "CREATE TABLE track (server_id TEXT, id TEXT, title TEXT, artist TEXT, album TEXT, \
           album_id TEXT, artist_id TEXT, year INTEGER, genre TEXT, starred_at INTEGER, \
           library_id TEXT, bpm INTEGER, deleted INTEGER DEFAULT 0, synced_at INTEGER, \
           duration_sec INTEGER, track_number INTEGER, play_count INTEGER, raw_json TEXT);
         CREATE TABLE album (server_id TEXT, id TEXT, name TEXT, artist TEXT, artist_id TEXT, \
           song_count INTEGER, duration_sec INTEGER, year INTEGER, genre TEXT, cover_art_id TEXT, \
           starred_at INTEGER, synced_at INTEGER, raw_json TEXT);",
    )
    .unwrap();
    conn
}

struct Track {
    id: &'static str,
    title: &'static str,
    year: Option<i64>,
    genre: Option<&'static str>,
    starred_at: Option<i64>,
    library_id: Option<&'static str>,
    bpm: Option<i64>,
}

fn track(id: &'static str, title: &'static str) -> Track {
    Track { id, title, year: None, genre: None, starred_at: None, library_id: None, bpm: None }
}

fn insert(conn: &Connection, t: &Track) {
    conn.execute(
        "INSERT INTO track (server_id, id, title, artist, album, album_id, artist_id, year, genre, \
         starred_at, library_id, bpm, synced_at, duration_sec, raw_json) \
         VALUES ('s1', ?1, ?2, 'X', 'Alb', 'al_Alb', 'ar_X', ?3, ?4, ?5, ?6, ?7, 1, 200, '{}')",
        (t.id, t.title, t.year, t.genre, t.starred_at, t.library_id, t.bpm),
    )
    .unwrap();
}

fn insert_album(conn: &Connection, id: &str, name: &str, year: Option<i64>) {
    conn.execute(
        "INSERT INTO album (server_id, id, name, year, synced_at, raw_json) VALUES ('s1', ?1, ?2, ?3, 1, '{}')",
        (id, name, year),
    )
    .unwrap();
}

fn req(server: &str, entities: &[EntityKind]) -> LibraryAdvancedSearchRequest {
    LibraryAdvancedSearchRequest {
        server_id: server.into(),
        library_scope: None,
        query: None,
        entity_types: entities.to_vec(),
        filters: Vec::new(),
        starred_only: None,
        sort: Vec::new(),
        limit: 50,
        offset: 0,
        skip_totals: false,
    }
}

fn clause(field: &str, op: FilterOp, value: Option<ClauseValue>, value_to: Option<ClauseValue>) -> LibraryFilterClause {
    LibraryFilterClause { field: field.into(), op, value, value_to }
}

fn sql() -> SearchSql {
    SearchSql {
        scope_eq_t: "t.library_id = ?".to_string(),
        scope_eq_fts: "t_fts.library_id = ?".to_string(),
        bpm_t: "t.bpm".to_string(),
    }
}

fn bound(v: &SqlValue) -> Value {
    match v {
        SqlValue::Null => Value::Null,
        SqlValue::Integer(i) => Value::Integer(*i),
        SqlValue::Text(s) => Value::Text(s.clone()),
    }
}

fn ids(conn: &Connection, sql: &str, params: &[SqlValue]) -> Vec<String> {
    let values: Vec<Value> = params.iter().map(bound).collect();
    let mut stmt = conn.prepare(sql).unwrap();
    let rows = stmt
        .query_map(rusqlite::params_from_iter(values.iter()), |r| r.get::<_, String>(0))
        .unwrap()
        .collect::<rusqlite::Result<Vec<String>>>()
        .unwrap();
    rows
}

fn total(conn: &Connection, from: &str, where_sql: &str, params: &[SqlValue]) -> u32 {
    let (sql, capped) = count_query(from, where_sql);
    assert!(!capped);
    let values: Vec<Value> = params.iter().map(bound).collect();
    let n: i64 = conn.query_row(&sql, rusqlite::params_from_iter(values.iter()), |r| r.get(0)).unwrap();
    count_total(n)
}

struct Found {
    tracks: Vec<String>,
    track_total: u32,
    albums: Vec<String>,
    album_total: u32,
    artists: Vec<String>,
    applied: Vec<String>,
}

fn search(conn: &Connection, r: &LibraryAdvancedSearchRequest) -> Result<Found, String> {
    let plan = plan_advanced_search(r, 500)?;
    let mut applied = Vec::new();
    let mut found = Found {
        tracks: Vec::new(),
        track_total: 0,
        albums: Vec::new(),
        album_total: 0,
        artists: Vec::new(),
        applied: Vec::new(),
    };
    if plan.want_albums {
        let q = build_album_table_query(r, &plan.input.scalar, None, &sql(), &mut applied)?;
        let w = q.where_clause.where_sql();
        let page = page_query("a.id", "album a", &w, None, &q.order);
        found.album_total = total(conn, "album a", &w, &q.where_clause.params);
        found.albums = ids(conn, &page, &bind_params(&[], &q.where_clause.params, plan.limit, r.offset, true));
    }
    if plan.want_tracks {
        let q = build_track_query(r, &plan.input.scalar, None, &sql(), plan.limit, r.offset, &mut applied)?;
        let w = q.where_clause.where_sql();
        found.track_total = total(conn, "track t", &w, &q.where_clause.params);
        let page = page_query("t.id", "track t", &w, None, &q.order);
        found.tracks = ids(conn, &page, &bind_params(&[], &q.where_clause.params, plan.limit, r.offset, true));
    }
    applied.sort();
    found.applied = applied;
    Ok(found)
}

#[test]
fn genre_filter_is_case_insensitive() {
    let conn = store();
    let mut a = track("t1", "A");
    a.genre = Some("Ambient");
    let mut b = track("t2", "B");
    b.genre = Some("Techno");
    insert(&conn, &a);
    insert(&conn, &b);
    let mut r = req("s1", &[EntityKind::Track]);
    r.filters = vec![clause("genre", FilterOp::Eq, Some(ClauseValue::Text("ambient".into())), None)];
    let resp = search(&conn, &r).unwrap();
    assert_eq!(resp.tracks.len(), 1);
    assert_eq!(resp.tracks[0], "t1");
    assert!(resp.applied.contains(&"genre".to_string()));
}

#[test]
fn year_between_is_inclusive() {
    let conn = store();
    for (id, year) in [("t1", 2000), ("t2", 2010), ("t3", 2011)] {
        let mut t = track(id, id);
        t.year = Some(year);
        insert(&conn, &t);
    }
    let mut r = req("s1", &[EntityKind::Track]);
    r.filters = vec![clause(
        "year",
        FilterOp::Between,
        Some(ClauseValue::Number(Some(2000))),
        Some(ClauseValue::Number(Some(2010))),
    )];
    let resp = search(&conn, &r).unwrap();
    assert_eq!(resp.tracks, vec!["t1", "t2"]);
}

#[test]
fn year_only_branch_runs_without_fts() {
    let conn = store();
    let mut a = track("t1", "A");
    a.year = Some(1999);
    insert(&conn, &a);
    let mut r = req("s1", &[EntityKind::Track]);
    r.filters = vec![clause("year", FilterOp::Gte, Some(ClauseValue::Number(Some(1999))), None)];
    let resp = search(&conn, &r).unwrap();
    assert_eq!(resp.tracks.len(), 1);
    assert!(!resp.applied.contains(&"text".to_string()));
}

#[test]
fn starred_only_filters_tracks() {
    let conn = store();
    let mut a = track("t1", "A");
    a.starred_at = Some(123);
    insert(&conn, &a);
    insert(&conn, &track("t2", "B"));
    let mut r = req("s1", &[EntityKind::Track]);
    r.starred_only = Some(true);
    let resp = search(&conn, &r).unwrap();
    assert_eq!(resp.tracks.len(), 1);
    assert_eq!(resp.tracks[0], "t1");
}

#[test]
fn bpm_filter_matches_hot_column() {
    let conn = store();
    let mut a = track("t1", "A");
    a.bpm = Some(125);
    let mut b = track("t2", "B");
    b.bpm = Some(90);
    insert(&conn, &a);
    insert(&conn, &b);
    let mut r = req("s1", &[EntityKind::Track]);
    r.filters = vec![clause(
        "bpm",
        FilterOp::Between,
        Some(ClauseValue::Number(Some(120))),
        Some(ClauseValue::Number(Some(130))),
    )];
    let resp = search(&conn, &r).unwrap();
    assert_eq!(resp.tracks.len(), 1);
    assert_eq!(resp.tracks[0], "t1");
}

#[test]
fn track_only_filter_is_ignored_for_album_entity_no_error() {
    let conn = store();
    insert_album(&conn, "al1", "Some Album", Some(2001));
    let mut r = req("s1", &[EntityKind::Album]);
    r.filters = vec![clause(
        "bpm",
        FilterOp::Between,
        Some(ClauseValue::Number(Some(120))),
        Some(ClauseValue::Number(Some(130))),
    )];
    let resp = search(&conn, &r).unwrap();
    assert_eq!(resp.albums.len(), 1);
    assert!(!resp.applied.contains(&"bpm".to_string()));
}

#[test]
fn library_scope_narrows_track_results() {
    let conn = store();
    let mut a = track("t1", "A");
    a.library_id = Some("lib1");
    let mut b = track("t2", "B");
    b.library_id = Some("lib2");
    insert(&conn, &a);
    insert(&conn, &b);
    let mut r = req("s1", &[EntityKind::Track]);
    r.library_scope = Some("lib1".into());
    let resp = search(&conn, &r).unwrap();
    assert_eq!(resp.tracks.len(), 1);
    assert_eq!(resp.tracks[0], "t1");
}

#[test]
fn offset_pages_through_results() {
    let conn = store();
    let titles = ["Title 0", "Title 1", "Title 2", "Title 3", "Title 4"];
    let ids_ = ["t0", "t1", "t2", "t3", "t4"];
    for i in 0..5 {
        insert(&conn, &track(ids_[i], titles[i]));
    }
    let mut r = req("s1", &[EntityKind::Track]);
    r.sort = vec![LibrarySortClause { field: "title".into(), dir: SortDir::Asc }];
    r.limit = 2;
    r.offset = 2;
    let resp = search(&conn, &r).unwrap();
    assert_eq!(resp.tracks, vec!["t2", "t3"]);
    assert_eq!(resp.track_total, 5);
}

#[test]
fn unrequested_entities_are_empty() {
    let conn = store();
    insert(&conn, &track("t1", "A"));
    insert_album(&conn, "al1", "Alb", None);
    let resp = search(&conn, &req("s1", &[EntityKind::Track])).unwrap();
    assert_eq!(resp.tracks.len(), 1);
    assert!(resp.albums.is_empty());
    assert!(resp.artists.is_empty());
    assert_eq!(resp.album_total, 0);
}

#[test]
fn sort_desc_orders_results() {
    let conn = store();
    let mut a = track("t1", "A");
    a.year = Some(2000);
    let mut b = track("t2", "B");
    b.year = Some(2020);
    insert(&conn, &a);
    insert(&conn, &b);
    let mut r = req("s1", &[EntityKind::Track]);
    r.sort = vec![LibrarySortClause { field: "year".into(), dir: SortDir::Desc }];
    let resp = search(&conn, &r).unwrap();
    assert_eq!(resp.tracks, vec!["t2", "t1"]);
}
