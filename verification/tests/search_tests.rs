use psysonic::advanced_search::insert_applied;
use psysonic::advanced_search::{
    bind_params, build_album_fts_query, build_album_from_tracks_query, build_album_table_query,
    build_artist_fts_query, build_artist_from_tracks_query, build_artist_table_query,
    build_track_query, count_query, count_total, dedupe_page, fts_candidate_pool_size,
    fts_dedupe_pool_size, json_to_opt_i64, json_to_string_list, json_to_text, next_entity_source,
    order_clause, page_query, plan_advanced_search, resolve_clause,
    scalar_requires_track_derived_entities, scoped_fts_pick_join_sql,
    scoped_fts_rowid_subquery_sql, scoped_fts_subquery_bind, sort_column, split_search_request,
    trimmed_nonempty, ArrayItem, ClauseValue, EntitySource, LibraryAdvancedSearchRequest,
    LibraryFilterClause, LibrarySortClause, SearchSql, SortDir, WhereBuilder,
};
use psysonic::advanced_search_mood::{mood_tag_exists_fragment, resolve_mood_clause};
use psysonic::filter::{EntityKind, FilterOp, SqlFragment, SqlValue};
use psysonic::json::JsonValue;
use psysonic::search_rows::{album_fts_page, artist_fts_page, artist_from_fts_row, AlbumFtsRow, ArtistFtsRow};

fn req(server: &str, entities: &[EntityKind]) -> LibraryAdvancedSearchRequest {
    LibraryAdvancedSearchRequest {
        server_id: server.into(),
        library_scope: None,
        query: None,
        entity_types: entities.to_vec(),
        filters: Vec::new(),
        starred_only: None,
        sort: Vec::new(),
        limit: 50,
        offset: 0,
        skip_totals: false,
    }
}

fn clause(field: &str, op: FilterOp, value: Option<ClauseValue>, value_to: Option<ClauseValue>) -> LibraryFilterClause {
    LibraryFilterClause { field: field.into(), op, value, value_to }
}

fn text(s: &str) -> ClauseValue {
    ClauseValue::Text(s.to_string())
}

fn num(i: i64) -> ClauseValue {
    ClauseValue::Number(Some(i))
}

fn sql() -> SearchSql {
    SearchSql {
        scope_eq_t: "t.library_id = ?".to_string(),
        scope_eq_fts: "t_fts.library_id = ?".to_string(),
        bpm_t: "BPM(t)".to_string(),
    }
}

fn track_where(r: &LibraryAdvancedSearchRequest) -> Result<(Vec<String>, Vec<SqlValue>, Vec<String>), String> {
    let plan = plan_advanced_search(r, 500)?;
    let mut applied = Vec::new();
    let q = build_track_query(r, &plan.input.scalar, None, &sql(), plan.limit, r.offset, &mut applied)?;
    Ok((q.where_clause.clauses, q.where_clause.params, applied))
}

// ── errors the whole request fails with ──────────────────────────────

#[test]
fn unknown_field_is_an_error() {
    let mut r = req("s1", &[EntityKind::Track]);
    r.filters = vec![clause("nope", FilterOp::Eq, Some(text("x")), None)];
    let err = plan_advanced_search(&r, 500).err().unwrap();
    assert!(err.contains("unknown filter field"), "got: {err}");
}

#[test]
fn planned_but_unbuilt_field_is_an_error() {
    let mut r = req("s1", &[EntityKind::Track]);
    r.filters = vec![clause("suffix", FilterOp::Eq, Some(text("flac")), None)];
    let err = track_where(&r).unwrap_err();
    assert!(err.contains("not queryable"), "got: {err}");
}

#[test]
fn undeclared_op_for_known_field_is_an_error() {
    let mut r = req("s1", &[EntityKind::Track]);
    r.filters = vec![clause("genre", FilterOp::Gte, Some(text("rock")), None)];
    let err = plan_advanced_search(&r, 500).err().unwrap();
    assert!(err.contains("not supported"), "got: {err}");
}

// ── clause resolution ────────────────────────────────────────────────

#[test]
fn genre_clause_is_case_insensitive_equality() {
    let c = clause("genre", FilterOp::Eq, Some(text("ambient")), None);
    let frag = resolve_clause(&c, EntityKind::Track, "BPM").unwrap().unwrap();
    assert_eq!(frag.sql, "t.genre = ? COLLATE NOCASE");
    assert_eq!(frag.params, vec![SqlValue::Text("ambient".to_string())]);
    let frag = resolve_clause(&c, EntityKind::Album, "BPM").unwrap().unwrap();
    assert_eq!(frag.sql, "a.genre = ? COLLATE NOCASE");
    assert_eq!(resolve_clause(&c, EntityKind::Artist, "BPM").unwrap(), None);
}

#[test]
fn year_between_binds_both_ends() {
    let c = clause("year", FilterOp::Between, Some(num(2000)), Some(num(2010)));
    let frag = resolve_clause(&c, EntityKind::Track, "BPM").unwrap().unwrap();
    assert_eq!(frag.sql, "t.year BETWEEN ? AND ?");
    assert_eq!(frag.params, vec![SqlValue::Integer(2000), SqlValue::Integer(2010)]);
}

#[test]
fn bpm_uses_resolved_column_on_tracks_only() {
    let c = clause("bpm", FilterOp::Between, Some(num(120)), Some(num(130)));
    let frag = resolve_clause(&c, EntityKind::Track, "BPM(t)").unwrap().unwrap();
    assert_eq!(frag.sql, "BPM(t) BETWEEN ? AND ?");
    assert_eq!(resolve_clause(&c, EntityKind::Album, "BPM(t)").unwrap(), None);
}

#[test]
fn starred_clause_ignores_value_and_skips_artists() {
    let c = clause("starred", FilterOp::IsTrue, None, None);
    let frag = resolve_clause(&c, EntityKind::Album, "BPM").unwrap().unwrap();
    assert_eq!(frag.sql, "a.starred_at IS NOT NULL");
    assert!(frag.params.is_empty());
    assert_eq!(resolve_clause(&c, EntityKind::Artist, "BPM").unwrap(), None);
}

#[test]
fn text_clause_is_left_to_the_builder() {
    let c = clause("text", FilterOp::Fts, Some(text("x")), None);
    assert_eq!(resolve_clause(&c, EntityKind::Track, "BPM").unwrap(), None);
}

#[test]
fn bad_values_are_reported() {
    let c = clause("year", FilterOp::Gte, Some(text("1999")), None);
    assert_eq!(
        resolve_clause(&c, EntityKind::Track, "BPM").unwrap_err(),
        "bad value for filter field `year`: expected a numeric value"
    );
    let c = clause("year", FilterOp::Gte, Some(ClauseValue::Number(None)), None);
    assert_eq!(
        resolve_clause(&c, EntityKind::Track, "BPM").unwrap_err(),
        "bad value for filter field `year`: expected an integer value"
    );
    let c = clause("genre", FilterOp::Eq, Some(num(3)), None);
    assert_eq!(
        resolve_clause(&c, EntityKind::Track, "BPM").unwrap_err(),
        "bad value for filter field `genre`: expected a string value"
    );
    let c = clause("year", FilterOp::Gte, Some(ClauseValue::Null), None);
    assert_eq!(
        resolve_clause(&c, EntityKind::Track, "BPM").unwrap_err(),
        "bad value for filter field `year`: operator `gte` requires a value"
    );
}

#[test]
fn value_conversions() {
    assert_eq!(json_to_text("f", Some(&text("a"))), Ok(SqlValue::Text("a".to_string())));
    assert!(json_to_text("f", None).is_err());
    assert_eq!(json_to_opt_i64("f", None), Ok(None));
    assert_eq!(json_to_opt_i64("f", Some(&ClauseValue::Null)), Ok(None));
    assert_eq!(json_to_opt_i64("f", Some(&num(-4))), Ok(Some(SqlValue::Integer(-4))));
    assert!(json_to_opt_i64("f", Some(&ClauseValue::Bool(true))).is_err());
}

#[test]
fn string_lists_for_eq_and_in() {
    assert_eq!(
        json_to_string_list("mood_tag", FilterOp::Eq, Some(&text("calm"))),
        Ok(vec!["calm".to_string()])
    );
    let arr = ClauseValue::Array(vec![ArrayItem::Text("a".into()), ArrayItem::Text("b".into())]);
    assert_eq!(
        json_to_string_list("mood_tag", FilterOp::In, Some(&arr)),
        Ok(vec!["a".to_string(), "b".to_string()])
    );
    assert_eq!(
        json_to_string_list("mood_tag", FilterOp::In, Some(&ClauseValue::Array(vec![]))),
        Err("bad value for filter field `mood_tag`: operator `in` requires a non-empty array".to_string())
    );
    let mixed = ClauseValue::Array(vec![ArrayItem::Text("a".into()), ArrayItem::Other]);
    assert_eq!(
        json_to_string_list("mood_tag", FilterOp::In, Some(&mixed)),
        Err("bad value for filter field `mood_tag`: expected an array of strings".to_string())
    );
    assert_eq!(
        json_to_string_list("mood_tag", FilterOp::In, Some(&text("a"))),
        Err("bad value for filter field `mood_tag`: operator `in` requires an array value".to_string())
    );
    assert_eq!(
        json_to_string_list("mood_tag", FilterOp::Gte, Some(&text("a"))),
        Err("operator `gte` is not supported for filter field `mood_tag`".to_string())
    );
}

#[test]
fn mood_group_joy_matches_happy_and_excited_tags() {
    let c = clause("mood_group", FilterOp::Eq, Some(text("joy")), None);
    let frag = resolve_mood_clause(&c).unwrap().unwrap();
    assert!(frag.sql.starts_with("EXISTS (SELECT 1 FROM track_fact mf"));
    assert!(frag.sql.ends_with("mf.value_text IN (?, ?))"));
    assert_eq!(
        frag.params,
        vec![SqlValue::Text("happy".to_string()), SqlValue::Text("excited".to_string())]
    );
    let via = resolve_clause(&c, EntityKind::Track, "BPM").unwrap().unwrap();
    assert_eq!(via, frag);
}

#[test]
fn mood_tag_in_dedupes_and_rejects_unknown() {
    let arr = ClauseValue::Array(vec![
        ArrayItem::Text("calm".into()),
        ArrayItem::Text("calm".into()),
        ArrayItem::Text("sad".into()),
    ]);
    let c = clause("mood_tag", FilterOp::In, Some(arr), None);
    let frag = resolve_mood_clause(&c).unwrap().unwrap();
    assert_eq!(
        frag.params,
        vec![SqlValue::Text("calm".to_string()), SqlValue::Text("sad".to_string())]
    );
    let c = clause("mood_group", FilterOp::Eq, Some(text("nope")), None);
    assert_eq!(
        resolve_mood_clause(&c).unwrap_err(),
        "bad value for filter field `mood_group`: unknown mood group `nope`"
    );
}

#[test]
fn mood_fragment_has_one_placeholder_per_tag() {
    let frag = mood_tag_exists_fragment(&["a".to_string()]);
    assert_eq!(
        frag.sql,
        "EXISTS (SELECT 1 FROM track_fact mf WHERE mf.server_id = t.server_id AND mf.track_id = t.id AND mf.fact_kind = 'mood_tag' AND mf.value_text IN (?))"
    );
    let three = mood_tag_exists_fragment(&["a".to_string(), "b".to_string(), "c".to_string()]);
    assert_eq!(three.sql.matches('?').count(), 3);
}

#[test]
fn track_derived_only_for_mood_filters() {
    assert!(!scalar_requires_track_derived_entities(&[clause("bpm", FilterOp::Gte, Some(num(1)), None)]));
    assert!(scalar_requires_track_derived_entities(&[
        clause("genre", FilterOp::Eq, Some(text("a")), None),
        clause("mood_tag", FilterOp::Eq, Some(text("calm")), None),
    ]));
}

// ── request and builders ─────────────────────────────────────────────

#[test]
fn text_comes_from_query_or_first_text_clause() {
    let filters = vec![
        clause("text", FilterOp::Fts, Some(text("  first ")), None),
        clause("year", FilterOp::Gte, Some(num(1999)), None),
        clause("text", FilterOp::Fts, Some(text("second")), None),
    ];
    let split = split_search_request(None, &filters).unwrap();
    assert_eq!(split.text.as_deref(), Some("first"));
    assert_eq!(split.scalar, vec![1]);
    let split = split_search_request(Some(" q "), &filters).unwrap();
    assert_eq!(split.text.as_deref(), Some("q"));
    let split = split_search_request(Some("   "), &[]).unwrap();
    assert_eq!(split.text, None);
}

#[test]
fn plan_clamps_limit_and_reads_entities() {
    let mut r = req("s1", &[EntityKind::Track, EntityKind::Album]);
    r.limit = 0;
    let p = plan_advanced_search(&r, 500).unwrap();
    assert_eq!(p.limit, 1);
    assert!(p.want_tracks && p.want_albums && !p.want_artists);
    r.limit = 9000;
    assert_eq!(plan_advanced_search(&r, 500).unwrap().limit, 500);
}

#[test]
fn year_only_track_query_has_no_fts() {
    let mut r = req("s1", &[EntityKind::Track]);
    r.filters = vec![clause("year", FilterOp::Gte, Some(num(1999)), None)];
    let plan = plan_advanced_search(&r, 500).unwrap();
    let mut applied = Vec::new();
    let q = build_track_query(&r, &plan.input.scalar, None, &sql(), plan.limit, 0, &mut applied).unwrap();
    assert!(q.fts.is_none());
    assert!(!applied.contains(&"text".to_string()));
    assert_eq!(applied, vec!["year".to_string()]);
    assert_eq!(
        q.where_clause.clauses,
        vec!["t.deleted = 0", "t.server_id = ?", "t.year >= ?"]
    );
    assert_eq!(
        q.where_clause.params,
        vec![SqlValue::Text("s1".to_string()), SqlValue::Integer(1999)]
    );
    assert_eq!(q.order, "ORDER BY t.title COLLATE NOCASE ASC, t.id ASC");
    assert!(!q.resolved_bpm);
}

#[test]
fn starred_scope_and_fts_track_query() {
    let mut r = req("s1", &[EntityKind::Track]);
    r.starred_only = Some(true);
    r.library_scope = Some(" lib1 ".to_string());
    r.filters = vec![clause("bpm", FilterOp::Gte, Some(num(120)), None)];
    let plan = plan_advanced_search(&r, 500).unwrap();
    let mut applied = Vec::new();
    let q = build_track_query(&r, &plan.input.scalar, Some("\"x\"*".to_string()), &sql(), 50, 0, &mut applied)
        .unwrap();
    assert!(q.resolved_bpm);
    assert_eq!(
        q.where_clause.clauses,
        vec![
            "t.deleted = 0",
            "t.server_id = ?",
            "t.library_id = ?",
            "BPM(t) >= ?",
            "t.starred_at IS NOT NULL"
        ]
    );
    let fts = q.fts.unwrap();
    assert_eq!(fts.match_query, "\"x\"*");
    assert_eq!(
        fts.binds,
        vec![SqlValue::Text("s1".to_string()), SqlValue::Text("lib1".to_string())]
    );
    assert!(fts.from.contains("LIMIT 1000) fts_pick"));
    assert!(fts.from.contains("AND t_fts.library_id = ?"));
    assert_eq!(q.order, "ORDER BY fts_pick.fts_rank");
    let mut names = applied.clone();
    names.sort();
    assert_eq!(names, vec!["bpm", "starred", "text"]);
}

#[test]
fn track_only_filter_is_skipped_for_album_table() {
    let mut r = req("s1", &[EntityKind::Album]);
    r.filters = vec![clause("bpm", FilterOp::Between, Some(num(120)), Some(num(130)))];
    let plan = plan_advanced_search(&r, 500).unwrap();
    let mut applied = Vec::new();
    let q = build_album_table_query(&r, &plan.input.scalar, None, &sql(), &mut applied).unwrap();
    assert_eq!(q.where_clause.clauses, vec!["a.server_id = ?"]);
    assert!(!applied.contains(&"bpm".to_string()));
    assert_eq!(q.order, "ORDER BY a.name COLLATE NOCASE ASC, a.id ASC");
}

#[test]
fn album_and_artist_queries_by_like() {
    let mut r = req("s1", &[EntityKind::Album, EntityKind::Artist]);
    r.library_scope = Some("lib".to_string());
    let mut applied = Vec::new();
    let q = build_album_table_query(&r, &[], Some("%x%"), &sql(), &mut applied).unwrap();
    assert_eq!(q.where_clause.clauses, vec!["a.server_id = ?", "a.name LIKE ? ESCAPE '\\'"]);
    assert_eq!(
        q.where_clause.params,
        vec![SqlValue::Text("s1".to_string()), SqlValue::Text("%x%".to_string())]
    );
    let q = build_album_from_tracks_query(&r, &[], Some("%x%"), &sql(), &mut applied).unwrap();
    assert_eq!(q.where_clause.clauses.len(), 6);
    assert_eq!(q.where_clause.clauses[4], "t.library_id = ?");
    assert_eq!(q.where_clause.clauses[5], "t.album LIKE ? ESCAPE '\\'");
    assert_eq!(q.order, "ORDER BY MAX(t.album) COLLATE NOCASE ASC, t.album_id ASC");
    let q = build_artist_table_query(&r, &[], Some("%x%"), &sql(), &mut applied).unwrap();
    assert_eq!(q.where_clause.clauses, vec!["ar.server_id = ?", "ar.name LIKE ? ESCAPE '\\'"]);
    let q = build_artist_from_tracks_query(&r, &[], None, &sql(), &mut applied).unwrap();
    assert_eq!(q.where_clause.clauses[2], "t.artist_id IS NOT NULL AND t.artist_id != ''");
    assert_eq!(q.where_clause.params, vec![SqlValue::Text("s1".to_string()), SqlValue::Text("lib".to_string())]);
    assert_eq!(applied, vec!["text".to_string()]);
}

#[test]
fn fts_album_and_artist_queries_bind_match_first() {
    let r = req("s1", &[EntityKind::Album]);
    let mut applied = Vec::new();
    let w = build_album_fts_query(&r, &[], "m*", &sql(), 50, 0, &mut applied).unwrap();
    assert!(w.clauses[0].starts_with("t.rowid IN (SELECT f.rowid FROM track_fts f"));
    assert!(w.clauses[0].ends_with("ORDER BY bm25(track_fts) LIMIT 400)"));
    assert_eq!(
        w.params,
        vec![
            SqlValue::Text("m*".to_string()),
            SqlValue::Text("s1".to_string()),
            SqlValue::Text("s1".to_string())
        ]
    );
    let w = build_artist_fts_query(&r, &[], "m*", &sql(), 1, 0, &mut applied).unwrap();
    assert!(w.clauses[0].ends_with("LIMIT 64)"));
    assert_eq!(w.clauses[3], "t.artist_id IS NOT NULL AND t.artist_id != ''");
}

#[test]
fn sort_columns_and_order() {
    assert_eq!(sort_column("title", EntityKind::Track), Some("t.title COLLATE NOCASE"));
    assert_eq!(sort_column("title", EntityKind::Album), None);
    assert_eq!(sort_column("name", EntityKind::Artist), Some("ar.name COLLATE NOCASE"));
    let sort = vec![
        LibrarySortClause { field: "year".into(), dir: SortDir::Desc },
        LibrarySortClause { field: "bogus".into(), dir: SortDir::Asc },
        LibrarySortClause { field: "title".into(), dir: SortDir::Asc },
    ];
    assert_eq!(
        order_clause(&sort, EntityKind::Track).as_deref(),
        Some("ORDER BY t.year DESC, t.title COLLATE NOCASE ASC")
    );
    assert_eq!(order_clause(&sort[1..2], EntityKind::Track), None);
}

#[test]
fn pool_sizes_clamp() {
    assert_eq!(fts_candidate_pool_size(1, 0), 256);
    assert_eq!(fts_candidate_pool_size(50, 0), 1000);
    assert_eq!(fts_candidate_pool_size(u32::MAX, u32::MAX), 10_000);
    assert_eq!(fts_dedupe_pool_size(1, 0), 64);
    assert_eq!(fts_dedupe_pool_size(100, 50), 1200);
    assert_eq!(fts_dedupe_pool_size(1000, 0), 2000);
}

#[test]
fn fts_subquery_sql_and_binds() {
    assert_eq!(
        scoped_fts_rowid_subquery_sql(256, None, "S"),
        "SELECT f.rowid FROM track_fts f JOIN track t_fts ON t_fts.rowid = f.rowid WHERE track_fts MATCH ? AND t_fts.server_id = ? AND t_fts.deleted = 0 ORDER BY bm25(track_fts) LIMIT 256"
    );
    assert!(scoped_fts_rowid_subquery_sql(-5, Some("x"), "S").ends_with(" AND S ORDER BY bm25(track_fts) LIMIT -5"));
    assert_eq!(
        scoped_fts_pick_join_sql(300, None, "S"),
        "track t INNER JOIN (SELECT f.rowid, bm25(track_fts) AS fts_rank FROM track_fts f JOIN track t_fts ON t_fts.rowid = f.rowid WHERE track_fts MATCH ? AND t_fts.server_id = ? AND t_fts.deleted = 0 ORDER BY fts_rank LIMIT 300) fts_pick ON t.rowid = fts_pick.rowid"
    );
    assert_eq!(scoped_fts_subquery_bind("s", Some("  ")), vec![SqlValue::Text("s".to_string())]);
    assert_eq!(
        scoped_fts_subquery_bind("s", Some(" l ")),
        vec![SqlValue::Text("s".to_string()), SqlValue::Text(" l ".to_string())]
    );
}

#[test]
fn where_builder_keeps_params_in_lockstep() {
    let mut w = WhereBuilder::new();
    w.push_raw("t.deleted = 0");
    w.push_param("t.server_id = ?", SqlValue::Text("s".into()));
    w.push(SqlFragment { sql: "x BETWEEN ? AND ?".into(), params: vec![SqlValue::Integer(1), SqlValue::Integer(2)] });
    w.push_params("y IN (?, ?)", vec![SqlValue::Integer(3), SqlValue::Integer(4)]);
    let sql = w.where_sql();
    assert_eq!(sql, "t.deleted = 0 AND t.server_id = ? AND x BETWEEN ? AND ? AND y IN (?, ?)");
    assert_eq!(sql.matches('?').count(), w.params.len());
    assert_eq!(WhereBuilder::new().where_sql(), "");
}

#[test]
fn fts_rows_dedupe_by_key_then_page() {
    let keys: Vec<String> = ["a", "a", "b", "c", "b", "d"].iter().map(|s| s.to_string()).collect();
    let (page, total) = dedupe_page(&keys, 10, 1, 2, false);
    assert_eq!(page, vec![2, 3]);
    assert_eq!(total, 4);
    let (page, total) = dedupe_page(&keys, 2, 0, 10, true);
    assert_eq!(page, vec![0, 2]);
    assert_eq!(total, 0);
    let (page, total) = dedupe_page(&keys, 0, 0, 10, false);
    assert_eq!(page, vec![0]);
    assert_eq!(total, 1);
    let (page, _) = dedupe_page(&keys, 10, 9, 2, false);
    assert!(page.is_empty());
}

#[test]
fn entity_source_falls_back_after_empty_table() {
    assert_eq!(next_entity_source(false, None, true), EntitySource::Table);
    assert_eq!(next_entity_source(false, Some((0, 3)), true), EntitySource::Table);
    assert_eq!(next_entity_source(false, Some((0, 0)), true), EntitySource::Fts);
    assert_eq!(next_entity_source(false, Some((0, 0)), false), EntitySource::FromTracks);
    assert_eq!(next_entity_source(true, None, false), EntitySource::FromTracks);
}

#[test]
fn count_and_page_queries() {
    let (count, capped) = count_query("track t", "a = ?");
    assert_eq!(count, "SELECT COUNT(*) FROM track t WHERE a = ?");
    assert!(!capped);
    let (count, capped) = count_query("track t INNER JOIN (x track_fts y)", "a");
    assert_eq!(count, "SELECT COUNT(*) FROM (SELECT 1 FROM track t INNER JOIN (x track_fts y) WHERE a LIMIT ?)");
    assert!(capped);
    assert_eq!(count_total(-3), 0);
    assert_eq!(count_total(42), 42);
    assert_eq!(
        page_query("c", "f", "w", Some("GROUP BY g"), "ORDER BY o"),
        "SELECT c FROM f WHERE w GROUP BY g ORDER BY o LIMIT ? OFFSET ?"
    );
    assert_eq!(page_query("c", "f", "w", None, "ORDER BY o"), "SELECT c FROM f WHERE w ORDER BY o LIMIT ? OFFSET ?");
    assert_eq!(
        bind_params(&[SqlValue::Text("m".into())], &[SqlValue::Integer(1)], 5, 10, true),
        vec![SqlValue::Text("m".into()), SqlValue::Integer(1), SqlValue::Integer(5), SqlValue::Integer(10)]
    );
}

#[test]
fn trimmed_nonempty_drops_blank() {
    assert_eq!(trimmed_nonempty(Some("  a b ")).as_deref(), Some("a b"));
    assert_eq!(trimmed_nonempty(Some("   ")), None);
    assert_eq!(trimmed_nonempty(None), None);
}

#[test]
fn sql_text_does_not_carry_values() {
    let a = clause("genre", FilterOp::Eq, Some(text("rock'; DROP TABLE track; --")), None);
    let b = clause("genre", FilterOp::Eq, Some(text("jazz")), None);
    let fa = resolve_clause(&a, EntityKind::Track, "BPM").unwrap().unwrap();
    let fb = resolve_clause(&b, EntityKind::Track, "BPM").unwrap().unwrap();
    assert_eq!(fa.sql, fb.sql);
    assert!(!fa.sql.contains("DROP"));
    assert_eq!(fa.params, vec![SqlValue::Text("rock'; DROP TABLE track; --".to_string())]);
}

#[test]
fn album_fts_query_error_keeps_text_in_applied() {
    let mut r = req("s1", &[EntityKind::Album]);
    r.filters = vec![clause("suffix", FilterOp::Eq, Some(text("flac")), None)];
    let mut applied = Vec::new();
    let out = build_album_fts_query(&r, &[0], "x", &sql(), 50, 0, &mut applied);
    assert_eq!(
        out.err(),
        Some("filter field `suffix` is registered but not queryable in v1".to_string())
    );
    assert_eq!(applied, vec!["text".to_string()]);
}

fn album_row(album_id: &str, album: &str, year: Option<i64>) -> AlbumFtsRow {
    AlbumFtsRow {
        server_id: "s1".into(),
        album_id: album_id.into(),
        album: album.into(),
        artist: Some("Alice".into()),
        artist_id: Some("ar1".into()),
        year,
        genre: None,
        cover_art_id: Some("c1".into()),
        starred_at: None,
        synced_at: 7,
    }
}

#[test]
fn album_fts_page_keeps_first_row_per_album_without_counts() {
    let rows = vec![
        album_row("a1", "First", Some(2001)),
        album_row("a1", "First again", Some(1999)),
        album_row("a2", "Second", None),
        album_row("a3", "Third", None),
    ];
    let (page, total) = album_fts_page(&rows, 2, 0, false);
    assert_eq!(total, 2);
    assert_eq!(page.len(), 2);
    assert_eq!(page[0].id, "a1");
    assert_eq!(page[0].name, "First");
    assert_eq!(page[0].year, Some(2001));
    assert_eq!(page[0].song_count, None);
    assert_eq!(page[0].duration_sec, None);
    assert!(matches!(page[0].raw_json, JsonValue::Null));
    assert_eq!(page[1].id, "a2");
    let (page, total) = album_fts_page(&rows, 2, 1, true);
    assert_eq!(total, 0);
    let ids: Vec<&str> = page.iter().map(|a| a.id.as_str()).collect();
    assert_eq!(ids, vec!["a2", "a3"]);
}

#[test]
fn artist_fts_page_names_missing_artist_empty() {
    let rows = vec![
        ArtistFtsRow { server_id: "s1".into(), artist_id: "x".into(), artist: None, synced_at: 3 },
        ArtistFtsRow { server_id: "s1".into(), artist_id: "x".into(), artist: Some("Later".into()), synced_at: 4 },
        ArtistFtsRow { server_id: "s1".into(), artist_id: "y".into(), artist: Some("Bob".into()), synced_at: 5 },
    ];
    let (page, total) = artist_fts_page(&rows, 10, 0, false);
    assert_eq!(total, 2);
    assert_eq!(page[0].name, "");
    assert_eq!(page[0].synced_at, 3);
    assert_eq!(page[0].album_count, None);
    assert_eq!(page[1].name, "Bob");
    let one = artist_from_fts_row(&rows[2]);
    assert_eq!(one.id, "y");
}

#[test]
fn short_text_plan_does_not_run() {
    let mut r = req("s1", &[EntityKind::Track]);
    r.query = Some(" a ".into());
    let plan = plan_advanced_search(&r, 500).unwrap();
    assert!(!plan.runs(false));
    assert!(plan.runs(true));
    let plan = plan_advanced_search(&req("s1", &[EntityKind::Track]), 500).unwrap();
    assert!(plan.runs(false));
}

#[test]
fn insert_applied_keeps_each_name_once() {
    let mut applied = Vec::new();
    insert_applied(&mut applied, "text");
    insert_applied(&mut applied, "year");
    insert_applied(&mut applied, "text");
    assert_eq!(applied, vec!["text".to_string(), "year".to_string()]);
}
