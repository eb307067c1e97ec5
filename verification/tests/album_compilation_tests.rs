use psysonic::album_compilation_filter::{
    compilation_predicate_sql, compilation_raw_json_sql, pick_album_group_artist,
    sql_track_group_display_artist, various_artists_label,
};

#[test]
fn sql_mentions_json_paths() {
    let sql = compilation_raw_json_sql("t");
    assert!(sql.contains("$.compilation"));
    assert!(sql.contains("$.releaseTypes"));
}

#[test]
fn predicate_includes_artist_columns() {
    let sql = compilation_predicate_sql("t", Some("t.artist"), Some("t.album_artist"));
    assert!(sql.contains("t.artist"));
    assert!(sql.contains("t.album_artist"));
    assert!(sql.contains("$.displayArtist"));
}

#[test]
fn pick_album_group_artist_prefers_nonempty_album_artist() {
    assert_eq!(
        pick_album_group_artist(Some("Alice".into()), Some("Various Artists".into())),
        Some("Various Artists".to_string())
    );
    assert_eq!(
        pick_album_group_artist(Some("Groove Armada".into()), Some("Underworld".into())),
        Some("Underworld".to_string())
    );
    assert_eq!(
        pick_album_group_artist(Some("Alice".into()), Some("Bob".into())),
        Some("Bob".to_string())
    );
}

#[test]
fn pick_album_group_artist_falls_back_to_track_artist() {
    assert_eq!(
        pick_album_group_artist(Some("Alice".into()), None),
        Some("Alice".to_string())
    );
    assert_eq!(
        pick_album_group_artist(Some("Alice".into()), Some("".into())),
        Some("Alice".to_string())
    );
    assert_eq!(pick_album_group_artist(None, None), None);
}

#[test]
fn sql_track_group_display_artist_matches_pick_album_group_artist() {
    let conn = rusqlite::Connection::open_in_memory().unwrap();
    conn.execute("CREATE TABLE la (artist TEXT, album_artist TEXT)", [])
        .unwrap();
    let sql = format!("SELECT {} FROM la", sql_track_group_display_artist("la"));

    let cases: [(&str, &str); 7] = [
        ("Groove Armada", "Underworld"),
        ("Alice", ""),
        ("", "Various Artists"),
        ("Alice", "Bob"),
        ("  ", "Bob"),
        ("Alice", "   "),
        ("", ""),
    ];

    for (track, album) in cases {
        conn.execute("DELETE FROM la", []).unwrap();
        conn.execute(
            "INSERT INTO la (artist, album_artist) VALUES (?1, ?2)",
            (track, album),
        )
        .unwrap();
        let sql_out: Option<String> = conn.query_row(&sql, [], |r| r.get(0)).ok();
        let rust_out = pick_album_group_artist(
            (!track.is_empty()).then(|| track.to_string()),
            (!album.is_empty()).then(|| album.to_string()),
        );
        assert_eq!(sql_out, rust_out, "track={track:?} album={album:?}");
    }
}

#[test]
fn pick_album_group_artist_trims_album_artist_and_keeps_blank_track_artist_out() {
    assert_eq!(
        pick_album_group_artist(Some("Alice".into()), Some("  Bob  ".into())),
        Some("Bob".to_string())
    );
    assert_eq!(pick_album_group_artist(Some("   ".into()), Some(" ".into())), None);
}

#[test]
fn various_artists_label_matches_known_spellings() {
    assert!(various_artists_label("Various Artists"));
    assert!(!various_artists_label("Underworld"));
}

#[test]
fn predicate_without_columns_still_checks_display_artist() {
    let sql = compilation_predicate_sql("a", None, None);
    assert!(sql.starts_with('('));
    assert!(sql.ends_with(')'));
    assert!(sql.contains("$.displayArtist"));
    assert!(sql.contains(" OR "));
}

#[test]
fn pick_album_group_artist_trims_track_artist_fallback() {
    assert_eq!(pick_album_group_artist(Some(" Alice ".into()), None), Some("Alice".to_string()));
    assert_eq!(pick_album_group_artist(Some("  ".into()), Some(" ".into())), None);
}
