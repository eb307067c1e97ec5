use psysonic::canonical::{canonical_id, link_target, strong_key, KIND_ISRC, KIND_MBID};

#[test]
fn canonical_id_is_kind_colon_value() {
    assert_eq!(canonical_id(KIND_ISRC, "USRC123"), "isrc:USRC123");
    assert_eq!(canonical_id(KIND_ISRC, "USRC123"), canonical_id(KIND_ISRC, "USRC123"));
    assert_eq!(canonical_id(KIND_MBID, "mbid-9"), "mbid_recording:mbid-9");
}

#[test]
fn isrc_is_preferred_over_mbid() {
    assert_eq!(strong_key(Some("USRC1"), Some("mbid-1")), Some((KIND_ISRC, "USRC1")));
    assert_eq!(link_target(Some("USRC1"), Some("mbid-1")).as_deref(), Some("isrc:USRC1"));
}

#[test]
fn mbid_is_used_without_isrc() {
    assert_eq!(link_target(None, Some("mbid-9")).as_deref(), Some("mbid_recording:mbid-9"));
    assert_eq!(link_target(Some(""), Some("mbid-9")).as_deref(), Some("mbid_recording:mbid-9"));
}

#[test]
fn empty_keys_count_as_absent() {
    assert_eq!(link_target(Some(""), None), None);
    assert_eq!(link_target(None, Some("")), None);
    assert_eq!(strong_key(None, None), None);
}

#[test]
fn same_isrc_on_two_servers_links_to_one_id() {
    assert_eq!(link_target(Some("USRC7"), None), link_target(Some("USRC7"), Some("other")));
}

#[test]
fn ids_of_different_kinds_never_collide() {
    assert_ne!(canonical_id(KIND_ISRC, "X"), canonical_id(KIND_MBID, "X"));
    assert_ne!(canonical_id(KIND_ISRC, "X"), canonical_id(KIND_ISRC, "Y"));
}
