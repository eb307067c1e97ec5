use psysonic::genre_tags::{
    genre_items_of_json, genres_for_track_extracted, genres_for_track_raw_json,
    genres_for_track_value, genres_from_items, split_genre_tags, GenreItem,
};
use psysonic::json::JsonValue;

fn text(s: &str) -> JsonValue {
    JsonValue::Text(s.to_string())
}

fn named(s: &str) -> JsonValue {
    JsonValue::Object(vec![("name".to_string(), text(s))])
}

fn payload(genres: Vec<JsonValue>, genre: Option<&str>) -> JsonValue {
    let mut fields = vec![("genres".to_string(), JsonValue::Array(genres))];
    if let Some(g) = genre {
        fields.push(("genre".to_string(), text(g)));
    }
    JsonValue::Object(fields)
}

#[test]
fn split_separators_and_dedupe() {
    assert_eq!(
        split_genre_tags("Rock/Jazz"),
        vec!["Rock".to_string(), "Jazz".to_string()]
    );
    assert_eq!(
        split_genre_tags("Rock; Jazz, Electronic"),
        vec![
            "Rock".to_string(),
            "Jazz".to_string(),
            "Electronic".to_string()
        ]
    );
    assert_eq!(split_genre_tags("Rock/rock/ROCK"), vec!["Rock".to_string()]);
    assert!(split_genre_tags("").is_empty());
}

#[test]
fn array_wins_over_genre_string() {
    let raw = payload(vec![named("A"), named("B")], Some("A/B/C"));
    assert_eq!(
        genres_for_track_value(&raw, Some("A/B/C")),
        vec!["A".to_string(), "B".to_string()]
    );
}

#[test]
fn bare_string_array_and_empty_array_fallback() {
    let bare = payload(vec![text("A"), text("B")], None);
    assert_eq!(
        genres_for_track_value(&bare, None),
        vec!["A".to_string(), "B".to_string()]
    );
    let empty = payload(vec![], Some("A/B"));
    assert_eq!(
        genres_for_track_value(&empty, Some("A/B")),
        vec!["A".to_string(), "B".to_string()]
    );
}

#[test]
fn extracted_json_matches_value_path() {
    let genres_json = r#"[{"name":"Jazz"},{"name":"Rock"}]"#;
    assert_eq!(
        genres_for_track_extracted(Some(genres_json), Some("Noise/Metal")),
        vec!["Jazz".to_string(), "Rock".to_string()]
    );
}

#[test]
fn raw_json_text_reads_genres_member() {
    let raw = r#"{"genres":[{"name":"A"},"B",3],"genre":"X"}"#;
    assert_eq!(
        genres_for_track_raw_json(raw, Some("X")),
        vec!["A".to_string(), "B".to_string()]
    );
    assert_eq!(genres_for_track_raw_json("not json", Some("X/Y")), vec!["X".to_string(), "Y".to_string()]);
    assert_eq!(genres_for_track_raw_json(r#"{"genres":"Rock"}"#, Some("Pop")), vec!["Pop".to_string()]);
}

#[test]
fn extracted_blank_or_non_array_falls_back() {
    assert_eq!(genres_for_track_extracted(Some("   "), Some("Pop")), vec!["Pop".to_string()]);
    assert_eq!(genres_for_track_extracted(Some("{}"), Some("Pop")), vec!["Pop".to_string()]);
    assert_eq!(genres_for_track_extracted(Some("[oops"), None), Vec::<String>::new());
    assert_eq!(
        genres_for_track_extracted(Some("  [\" Soul \"]  "), Some("Pop")),
        vec!["Soul".to_string()]
    );
}

#[test]
fn json_entries_become_genre_items() {
    let arr = JsonValue::Array(vec![
        named("A"),
        text("B"),
        JsonValue::Object(vec![("name".to_string(), JsonValue::Number(Some(1)))]),
        JsonValue::Null,
    ]);
    assert_eq!(
        genre_items_of_json(&arr),
        Some(vec![
            GenreItem::Named("A".to_string()),
            GenreItem::Bare("B".to_string()),
            GenreItem::Other,
            GenreItem::Other
        ])
    );
    assert_eq!(genre_items_of_json(&text("x")), None);
}

#[test]
fn blank_and_other_entries_fall_back_to_genre_string() {
    let items = vec![GenreItem::Named("  ".into()), GenreItem::Other, GenreItem::Bare("".into())];
    assert_eq!(genres_from_items(&items), None);
    let raw = payload(vec![named("  "), JsonValue::Null, text("")], None);
    assert_eq!(genres_for_track_value(&raw, Some("Ambient")), vec!["Ambient".to_string()]);
}

#[test]
fn array_entries_are_trimmed_and_deduplicated_case_insensitively() {
    let items = vec![
        GenreItem::Named(" Rock ".into()),
        GenreItem::Bare("rock".into()),
        GenreItem::Named("Jazz".into()),
    ];
    assert_eq!(
        genres_from_items(&items),
        Some(vec!["Rock".to_string(), "Jazz".to_string()])
    );
}

#[test]
fn no_array_and_no_genre_gives_nothing() {
    assert!(genres_for_track_value(&JsonValue::Null, None).is_empty());
    assert!(genres_for_track_value(&JsonValue::Object(vec![]), Some("   ")).is_empty());
}

#[test]
fn split_drops_empty_pieces() {
    assert_eq!(
        split_genre_tags(" ;Rock//Jazz,, "),
        vec!["Rock".to_string(), "Jazz".to_string()]
    );
}
