use psysonic::filter::{
    applies_to, compare_fragment, filter_field_registry, lookup, validate_for_entity, EntityKind,
    FilterError, FilterOp, FilterStatus, SqlValue,
};

#[test]
fn registry_contains_all_v1_fields() {
    for id in ["text", "genre", "year", "starred"] {
        let f = lookup(id).unwrap_or_else(|| panic!("missing v1 field `{id}`"));
        assert_eq!(f.status, FilterStatus::V1, "`{id}` must be V1");
    }
}

#[test]
fn bpm_is_v1_with_dual_storage_resolution() {
    assert_eq!(lookup("bpm").unwrap().status, FilterStatus::V1);
}

#[test]
fn mood_group_is_schema_v1_ui_later_while_oximedia_mood_disabled() {
    assert_eq!(
        lookup("mood_group").unwrap().status,
        FilterStatus::SchemaV1UiLater
    );
}

#[test]
fn text_routes_to_all_three_entities() {
    let f = lookup("text").unwrap();
    assert!(applies_to(&f, EntityKind::Track));
    assert!(applies_to(&f, EntityKind::Album));
    assert!(applies_to(&f, EntityKind::Artist));
}

#[test]
fn track_only_field_is_skipped_for_album_entity() {
    let f = lookup("user_rating").unwrap();
    assert!(applies_to(&f, EntityKind::Track));
    assert!(!applies_to(&f, EntityKind::Album));
    assert!(!applies_to(&f, EntityKind::Artist));
}

#[test]
fn unknown_field_lookup_returns_none() {
    assert!(lookup("nope").is_none());
}

#[test]
fn registry_has_no_duplicate_ids() {
    let registry = filter_field_registry();
    let mut ids: Vec<&str> = registry.iter().map(|f| f.id).collect();
    ids.sort();
    let len_before = ids.len();
    ids.dedup();
    assert_eq!(ids.len(), len_before, "duplicate filter field id detected");
}

#[test]
fn op_wire_roundtrips() {
    for op in [
        FilterOp::Fts,
        FilterOp::Eq,
        FilterOp::In,
        FilterOp::Gte,
        FilterOp::Lte,
        FilterOp::Between,
        FilterOp::IsTrue,
    ] {
        assert_eq!(FilterOp::from_wire(op.as_str()), Some(op));
    }
}

#[test]
fn op_from_wire_rejects_unbuilt_operators() {
    for wire in ["neq", "contains", "is_false", "nope"] {
        assert!(FilterOp::from_wire(wire).is_none(), "`{wire}` must not parse");
    }
}

#[test]
fn validate_unknown_field_errors() {
    let err = validate_for_entity("nope", FilterOp::Eq, EntityKind::Track).unwrap_err();
    assert!(matches!(err, FilterError::UnknownField(f) if f == "nope"));
}

#[test]
fn validate_undeclared_op_errors() {
    let err = validate_for_entity("genre", FilterOp::Gte, EntityKind::Track).unwrap_err();
    assert!(matches!(err, FilterError::UnsupportedOp { .. }));
}

#[test]
fn validate_known_field_off_entity_is_skip_not_error() {
    assert_eq!(
        validate_for_entity("bpm", FilterOp::Between, EntityKind::Album),
        Ok(false)
    );
    assert_eq!(
        validate_for_entity("bpm", FilterOp::Between, EntityKind::Track),
        Ok(true)
    );
}

#[test]
fn compare_fragment_between_is_inclusive_both_ends() {
    let frag = compare_fragment(
        "year",
        "t.year",
        FilterOp::Between,
        Some(SqlValue::Integer(2000)),
        Some(SqlValue::Integer(2010)),
    )
    .unwrap();
    assert_eq!(frag.sql, "t.year BETWEEN ? AND ?");
    assert_eq!(frag.params, vec![SqlValue::Integer(2000), SqlValue::Integer(2010)]);
}

#[test]
fn compare_fragment_between_without_value_to_errors() {
    let err = compare_fragment(
        "year",
        "t.year",
        FilterOp::Between,
        Some(SqlValue::Integer(2000)),
        None,
    )
    .unwrap_err();
    assert!(matches!(err, FilterError::BadValue { .. }));
}

#[test]
fn compare_fragment_is_true_ignores_value() {
    let frag = compare_fragment("starred", "t.starred_at", FilterOp::IsTrue, None, None).unwrap();
    assert_eq!(frag.sql, "t.starred_at IS NOT NULL");
    assert!(frag.params.is_empty());
}

#[test]
fn compare_fragment_eq_gte_lte_bind_one_value() {
    let eq = compare_fragment("year", "t.year", FilterOp::Eq, Some(SqlValue::Integer(1999)), None).unwrap();
    assert_eq!(eq.sql, "t.year = ?");
    assert_eq!(eq.params, vec![SqlValue::Integer(1999)]);
    let gte = compare_fragment("year", "t.year", FilterOp::Gte, Some(SqlValue::Integer(5)), None).unwrap();
    assert_eq!(gte.sql, "t.year >= ?");
    let lte = compare_fragment("year", "t.year", FilterOp::Lte, Some(SqlValue::Integer(5)), None).unwrap();
    assert_eq!(lte.sql, "t.year <= ?");
}

#[test]
fn compare_fragment_missing_value_message() {
    let err = compare_fragment("year", "t.year", FilterOp::Gte, None, None).unwrap_err();
    assert_eq!(
        err.message(),
        "bad value for filter field `year`: operator `gte` requires a value"
    );
    let err = compare_fragment("year", "t.year", FilterOp::Between, Some(SqlValue::Integer(1)), None)
        .unwrap_err();
    assert_eq!(
        err.message(),
        "bad value for filter field `year`: operator `between` requires `valueTo`"
    );
}

#[test]
fn compare_fragment_rejects_fts_and_in() {
    let err = compare_fragment("year", "t.year", FilterOp::In, Some(SqlValue::Integer(1)), None).unwrap_err();
    assert_eq!(err.message(), "operator `in` is not supported for filter field `year`");
}

#[test]
fn error_messages_read_as_documented() {
    assert_eq!(
        FilterError::NotQueryable("suffix".to_string()).message(),
        "filter field `suffix` is registered but not queryable in v1"
    );
    let unknown = FilterError::UnknownField("nope".to_string()).message();
    assert_eq!(
        unknown,
        "unknown filter field `nope` (known: text, genre, year, starred, user_rating, suffix, bit_rate, bpm, mood_group, mood_tag)"
    );
}

#[test]
fn registry_lookup_finds_every_registered_field() {
    for f in filter_field_registry() {
        let found = lookup(f.id).unwrap();
        assert_eq!(found.id, f.id);
        assert_eq!(found.ops, f.ops);
        assert_eq!(found.entities, f.entities);
    }
}
